//! Extraction and validation of the control annotations of a wrapper.
use vstd::prelude::*;
use crate::token::{Token, Tok, Delim, toks, copy_range};
use crate::model::{Attr, AttrV, attrs_view};
use crate::error::{MicrotypeError, ErrorKind, kind_of};
use crate::model::MicrotypeV;
use crate::plan::{Features, GeneratedV, generate_spec};

verus! {

/// The kind marker of a wrapper.
#[derive(Clone, Copy, Debug, PartialEq, Eq, Structural)]
pub enum TypeAnnotation {
    String,
    Int,
}

/// A validated `secret` marker: whether it asked for serialization, and
/// where it stood.
#[derive(Clone, Copy, Debug, PartialEq, Eq, Structural)]
pub struct SecretAttr {
    pub serialize: bool,
    pub span: usize,
}

/// The control annotations of a wrapper, once validated.
#[derive(Debug)]
pub struct SpecialAttrs {
    pub secret: Option<SecretAttr>,
    pub type_annotation: Option<TypeAnnotation>,
    pub diesel_type: Option<Vec<Token>>,
}

/// The value of validated control annotations.
pub struct SpecialV {
    pub secret: Option<SecretAttr>,
    pub type_annotation: Option<TypeAnnotation>,
    pub diesel_type: Option<Seq<Tok>>,
}

impl View for SpecialAttrs {
    type V = SpecialV;

    open spec fn view(&self) -> SpecialV {
        SpecialV {
            secret: self.secret,
            type_annotation: self.type_annotation,
            diesel_type: match self.diesel_type {
                Some(t) => Some(toks(t@)),
                None => None,
            },
        }
    }
}

/// Whether an annotation has the name `n`.
pub open spec fn named(n: Seq<char>) -> spec_fn(AttrV) -> bool {
    |a: AttrV| a.name == n
}

/// Whether an annotation has a name other than `n`.
pub open spec fn not_named(n: Seq<char>) -> spec_fn(AttrV) -> bool {
    |a: AttrV| a.name != n
}

/// The annotations named `n`, in order.
pub open spec fn with_name(s: Seq<AttrV>, n: Seq<char>) -> Seq<AttrV> {
    s.filter(named(n))
}

/// The annotations not named `n`, in order.
pub open spec fn without_name(s: Seq<AttrV>, n: Seq<char>) -> Seq<AttrV> {
    s.filter(not_named(n))
}

/// What the argument of a `secret` marker asks for: `Some(false)` for none
/// (or an empty list), `Some(true)` for `(serialize)`, `None` otherwise.
pub open spec fn secret_args(args: Seq<Tok>) -> Option<bool> {
    if args.len() == 0 || args == seq![Tok::Open(Delim::Paren), Tok::Close(Delim::Paren)] {
        Some(false)
    } else if args == seq![
        Tok::Open(Delim::Paren),
        Tok::Ident("serialize"@),
        Tok::Close(Delim::Paren),
    ] {
        Some(true)
    } else {
        None
    }
}

/// The type named by the argument `(name = Type)` of a column-mapping
/// marker, or `None` where the argument has another shape.
pub open spec fn column_args(args: Seq<Tok>) -> Option<Seq<Tok>> {
    if args.len() >= 5 && args[0] == Tok::Open(Delim::Paren) && args[1] is Ident
        && args[2] == Tok::Punct('=') && args.last() == Tok::Close(Delim::Paren) {
        Some(args.subrange(3, args.len() - 1))
    } else {
        None
    }
}

/// The result of taking the kind markers out of `s`: the other
/// annotations and the kind, or the first error.
pub open spec fn strip_kind_spec(s: Seq<AttrV>) -> Result<(Seq<AttrV>, Option<TypeAnnotation>), MicrotypeError> {
    let st = with_name(s, "string"@);
    let s2 = without_name(s, "string"@);
    let it = with_name(s2, "int"@);
    let s3 = without_name(s2, "int"@);
    if st.len() >= 2 {
        Err(MicrotypeError::DuplicateString { span: st[1].span })
    } else if it.len() >= 2 {
        Err(MicrotypeError::DuplicateInt { span: it[1].span })
    } else if st.len() == 1 && it.len() == 1 {
        Err(MicrotypeError::ConflictingKinds { span: it[0].span })
    } else if st.len() == 1 {
        Ok((s3, Some(TypeAnnotation::String)))
    } else if it.len() == 1 {
        Ok((s3, Some(TypeAnnotation::Int)))
    } else {
        Ok((s3, None))
    }
}

/// The type named by the first column-mapping marker of `s`, if there is
/// one and its argument has the shape `(name = Type)`.
pub open spec fn diesel_type_spec(s: Seq<AttrV>) -> Option<Seq<Tok>> {
    if with_name(s, "diesel"@).len() > 0 {
        column_args(with_name(s, "diesel"@)[0].args)
    } else {
        None
    }
}

/// The result of validating the annotation list `s`: the pass-through
/// annotations and the control record, or the first error. The markers are
/// taken out one name after the other: `secret`, `string`, `int`, `diesel`.
pub open spec fn strip_spec(s: Seq<AttrV>) -> Result<(Seq<AttrV>, SpecialV), MicrotypeError> {
    let sec = with_name(s, "secret"@);
    let s1 = without_name(s, "secret"@);
    if sec.len() >= 2 {
        Err(MicrotypeError::DuplicateSecret { span: sec[1].span })
    } else if sec.len() == 1 && secret_args(sec[0].args) is None {
        Err(MicrotypeError::MalformedSecret { span: sec[0].span })
    } else {
        match strip_kind_spec(s1) {
            Err(e) => Err(e),
            Ok((s3, kind)) => {
                let dl = with_name(s3, "diesel"@);
                let s4 = without_name(s3, "diesel"@);
                if dl.len() >= 2 {
                    Err(MicrotypeError::DuplicateColumn { span: dl[1].span })
                } else if dl.len() == 1 && column_args(dl[0].args) is None {
                    Err(MicrotypeError::MalformedColumn { span: dl[0].span })
                } else {
                    Ok(
                        (
                            s4,
                            SpecialV {
                                secret: if sec.len() == 1 {
                                    Some(
                                        SecretAttr {
                                            serialize: secret_args(sec[0].args) == Some(true),
                                            span: sec[0].span,
                                        },
                                    )
                                } else {
                                    None
                                },
                                type_annotation: kind,
                                diesel_type: if dl.len() == 1 {
                                    column_args(dl[0].args)
                                } else {
                                    None
                                },
                            },
                        ),
                    )
                }
            },
        }
    }
}

/// Splits `attrs` into the annotations named `name` and the others, both
/// in their original order.
pub fn partition_named(attrs: &Vec<Attr>, name: &str) -> (r: (Vec<Attr>, Vec<Attr>))
    ensures
        attrs_view(r.0@) == with_name(attrs_view(attrs@), name@),
        attrs_view(r.1@) == without_name(attrs_view(attrs@), name@),
{
    let n = String::from_str(name);
    let mut yes: Vec<Attr> = Vec::new();
    let mut no: Vec<Attr> = Vec::new();
    let mut i: usize = 0;
    while i < attrs.len()
        invariant
            i <= attrs@.len(),
            n@ == name@,
            attrs_view(yes@) == attrs_view(attrs@).take(i as int).filter(named(name@)),
            attrs_view(no@) == attrs_view(attrs@).take(i as int).filter(not_named(name@)),
        decreases attrs@.len() - i,
    {
        let a = attrs[i].copy();
        let ghost pre = attrs_view(attrs@).take(i + 1);
        proof {
            reveal(Seq::filter);
        }
        assert(pre.drop_last() =~= attrs_view(attrs@).take(i as int));
        assert(pre.last() == a@);
        if a.name == n {
            assert(named(name@)(a@));
            assert(pre.filter(named(name@)) == pre.drop_last().filter(named(name@)).push(a@));
            assert(pre.filter(not_named(name@)) == pre.drop_last().filter(not_named(name@)));
            let ghost before = yes@;
            yes.push(a);
            assert(attrs_view(yes@) =~= attrs_view(before).push(a@));
        } else {
            assert(not_named(name@)(a@));
            assert(pre.filter(named(name@)) == pre.drop_last().filter(named(name@)));
            assert(pre.filter(not_named(name@)) == pre.drop_last().filter(not_named(name@)).push(a@));
            let ghost before = no@;
            no.push(a);
            assert(attrs_view(no@) =~= attrs_view(before).push(a@));
        }
        i = i + 1;
    }
    assert(attrs_view(attrs@).take(i as int) =~= attrs_view(attrs@));
    (yes, no)
}

/// Reads the argument of a `secret` marker.
fn parse_secret_args(args: &Vec<Token>) -> (r: Option<bool>)
    ensures
        r == secret_args(toks(args@)),
{
    let ghost t = toks(args@);
    proof {
        reveal_strlit("serialize");
    }
    if args.len() == 0 {
        return Some(false);
    }
    let open = match &args[0] {
        Token::Open(Delim::Paren) => true,
        _ => false,
    };
    let close = match &args[args.len() - 1] {
        Token::Close(Delim::Paren) => true,
        _ => false,
    };
    assert(t[0] == args@[0]@);
    assert(t[t.len() - 1] == args@[args@.len() - 1]@);
    if args.len() == 2 && open && close {
        assert(t =~= seq![Tok::Open(Delim::Paren), Tok::Close(Delim::Paren)]);
        Some(false)
    } else if args.len() == 3 && open && close && args[1].is_ident("serialize") {
        assert(t =~= seq![
            Tok::Open(Delim::Paren),
            Tok::Ident("serialize"@),
            Tok::Close(Delim::Paren),
        ]);
        Some(true)
    } else {
        proof {
            if args@.len() == 3 && t == seq![
                Tok::Open(Delim::Paren),
                Tok::Ident("serialize"@),
                Tok::Close(Delim::Paren),
            ] {
                assert(t[1] == args@[1]@);
            }
        }
        None
    }
}

/// Reads the argument `(name = Type)` of a column-mapping marker.
fn parse_column_args(args: &Vec<Token>) -> (r: Option<Vec<Token>>)
    ensures
        match r {
            Some(ty) => column_args(toks(args@)) == Some(toks(ty@)),
            None => column_args(toks(args@)) is None,
        },
{
    let ghost t = toks(args@);
    if args.len() < 5 {
        return None;
    }
    let last = args.len() - 1;
    let ok = match (&args[0], &args[1], &args[2], &args[last]) {
        (Token::Open(Delim::Paren), Token::Ident(_), Token::Punct('='), Token::Close(Delim::Paren)) => true,
        _ => false,
    };
    assert(t[0] == args@[0]@ && t[1] == args@[1]@ && t[2] == args@[2]@);
    assert(t.last() == args@[last as int]@);
    if ok {
        let ty = copy_range(args, 3, last);
        Some(ty)
    } else {
        None
    }
}

/// Takes the `string` and `int` markers out of `attrs`: returns the other
/// annotations, in order, and the kind, or the first error.
pub fn strip_type_annotation(attrs: Vec<Attr>) -> (r: Result<(Vec<Attr>, Option<TypeAnnotation>), MicrotypeError>)
    ensures
        match r {
            Ok((rest, kind)) => strip_kind_spec(attrs_view(attrs@)) == Ok::<
                (Seq<AttrV>, Option<TypeAnnotation>),
                MicrotypeError,
            >((attrs_view(rest@), kind)),
            Err(e) => strip_kind_spec(attrs_view(attrs@)) == Err::<
                (Seq<AttrV>, Option<TypeAnnotation>),
                MicrotypeError,
            >(e),
        },
{
    let (st, s2) = partition_named(&attrs, "string");
    let (it, s3) = partition_named(&s2, "int");
    proof {
        assert(st@.len() == attrs_view(st@).len());
        assert(it@.len() == attrs_view(it@).len());
    }
    if st.len() >= 2 {
        assert(attrs_view(st@)[1] == st@[1]@);
        return Err(MicrotypeError::DuplicateString { span: st[1].span });
    }
    if it.len() >= 2 {
        assert(attrs_view(it@)[1] == it@[1]@);
        return Err(MicrotypeError::DuplicateInt { span: it[1].span });
    }
    if st.len() == 1 && it.len() == 1 {
        assert(attrs_view(it@)[0] == it@[0]@);
        return Err(MicrotypeError::ConflictingKinds { span: it[0].span });
    }
    let kind = if st.len() == 1 {
        Some(TypeAnnotation::String)
    } else if it.len() == 1 {
        Some(TypeAnnotation::Int)
    } else {
        None
    };
    Ok((s3, kind))
}

/// The type named by the first column-mapping marker of `attrs`, where its
/// argument has the shape `(name = Type)`.
pub fn find_diesel_attr(attrs: &Vec<Attr>) -> (r: Option<Vec<Token>>)
    ensures
        match r {
            Some(ty) => diesel_type_spec(attrs_view(attrs@)) == Some(toks(ty@)),
            None => diesel_type_spec(attrs_view(attrs@)) is None,
        },
{
    let (dl, _) = partition_named(attrs, "diesel");
    assert(dl@.len() == attrs_view(dl@).len());
    if dl.len() == 0 {
        return None;
    }
    assert(attrs_view(dl@)[0] == dl@[0]@);
    parse_column_args(&dl[0].args)
}

/// Takes the control annotations out of `attrs` and validates them.
/// On success returns the pass-through annotations, in order, and the
/// control record; otherwise the first error found.
pub fn strip_special_attrs(attrs: Vec<Attr>) -> (r: Result<(Vec<Attr>, SpecialAttrs), MicrotypeError>)
    ensures
        match r {
            Ok((rest, special)) => strip_spec(attrs_view(attrs@)) == Ok::<
                (Seq<AttrV>, SpecialV),
                MicrotypeError,
            >((attrs_view(rest@), special@)),
            Err(e) => strip_spec(attrs_view(attrs@)) == Err::<(Seq<AttrV>, SpecialV), MicrotypeError>(e),
        },
{
    let (sec, s1) = partition_named(&attrs, "secret");
    proof {
        assert(sec@.len() == attrs_view(sec@).len());
    }
    if sec.len() >= 2 {
        assert(attrs_view(sec@)[1] == sec@[1]@);
        return Err(MicrotypeError::DuplicateSecret { span: sec[1].span });
    }
    let mut secret: Option<SecretAttr> = None;
    if sec.len() == 1 {
        assert(attrs_view(sec@)[0] == sec@[0]@);
        match parse_secret_args(&sec[0].args) {
            None => {
                return Err(MicrotypeError::MalformedSecret { span: sec[0].span });
            },
            Some(serialize) => {
                secret = Some(SecretAttr { serialize, span: sec[0].span });
            },
        }
    }
    let (s3, type_annotation) = match strip_type_annotation(s1) {
        Ok(x) => x,
        Err(e) => {
            return Err(e);
        },
    };
    let (dl, s4) = partition_named(&s3, "diesel");
    proof {
        assert(dl@.len() == attrs_view(dl@).len());
    }
    if dl.len() >= 2 {
        assert(attrs_view(dl@)[1] == dl@[1]@);
        return Err(MicrotypeError::DuplicateColumn { span: dl[1].span });
    }
    let mut diesel_type: Option<Vec<Token>> = None;
    if dl.len() == 1 {
        assert(attrs_view(dl@)[0] == dl@[0]@);
        match parse_column_args(&dl[0].args) {
            None => {
                return Err(MicrotypeError::MalformedColumn { span: dl[0].span });
            },
            Some(ty) => {
                diesel_type = Some(ty);
            },
        }
    }
    let special = SpecialAttrs { secret, type_annotation, diesel_type };
    Ok((s4, special))
}

/// Taking out the annotations named `a` leaves those named `b` as they were.
pub proof fn lemma_with_name_skips_other(s: Seq<AttrV>, a: Seq<char>, b: Seq<char>)
    requires
        a != b,
    ensures
        with_name(without_name(s, a), b) == with_name(s, b),
    decreases s.len(),
{
    reveal(Seq::filter);
    if s.len() > 0 {
        lemma_with_name_skips_other(s.drop_last(), a, b);
        let t = without_name(s, a);
        if s.last().name == a {
            assert(t == without_name(s.drop_last(), a));
        } else {
            assert(t == without_name(s.drop_last(), a).push(s.last()));
            assert(t.drop_last() =~= without_name(s.drop_last(), a));
        }
    }
}

/// Two or more `secret` markers on one declaration always give the
/// duplicate error, located at the second marker, whatever their arguments
/// and whatever the enabled families.
pub proof fn duplicate_secret_always_errors(m: MicrotypeV, f: Features)
    requires
        with_name(m.attrs, "secret"@).len() >= 2,
    ensures
        strip_spec(m.attrs) == Err::<(Seq<AttrV>, SpecialV), MicrotypeError>(
            MicrotypeError::DuplicateSecret { span: with_name(m.attrs, "secret"@)[1].span },
        ),
        generate_spec(m, f) == Err::<GeneratedV, MicrotypeError>(
            MicrotypeError::DuplicateSecret { span: with_name(m.attrs, "secret"@)[1].span },
        ),
        kind_of(generate_spec(m, f)->Err_0) == ErrorKind::Duplicate,
{
}

/// A declaration with one `string` and one `int` marker is rejected as
/// conflicting, unless its `secret` marker is already in error.
pub proof fn string_and_int_conflict(m: MicrotypeV, f: Features)
    requires
        with_name(m.attrs, "string"@).len() == 1,
        with_name(m.attrs, "int"@).len() == 1,
        with_name(m.attrs, "secret"@).len() <= 1,
        with_name(m.attrs, "secret"@).len() == 1 ==> secret_args(
            with_name(m.attrs, "secret"@)[0].args,
        ) is Some,
    ensures
        generate_spec(m, f) == Err::<GeneratedV, MicrotypeError>(
            MicrotypeError::ConflictingKinds { span: with_name(m.attrs, "int"@)[0].span },
        ),
        kind_of(generate_spec(m, f)->Err_0) == ErrorKind::Conflicting,
{
    lemma_marker_names_differ();
    let s = m.attrs;
    let s1 = without_name(s, "secret"@);
    lemma_with_name_skips_other(s, "secret"@, "string"@);
    lemma_with_name_skips_other(s, "secret"@, "int"@);
    lemma_with_name_skips_other(s1, "string"@, "int"@);
}

/// A declaration with neither kind marker that validates has no kind, and
/// its wrapper gets neither the string nor the integer group.
pub proof fn no_kind_marker_no_kind(m: MicrotypeV, f: Features)
    requires
        with_name(m.attrs, "string"@).len() == 0,
        with_name(m.attrs, "int"@).len() == 0,
        strip_spec(m.attrs) is Ok,
    ensures
        (strip_spec(m.attrs)->Ok_0).1.type_annotation is None,
        generate_spec(m, f) is Ok ==> !(generate_spec(m, f)->Ok_0).plan.string_ops && !(
        generate_spec(m, f)->Ok_0).plan.int_ops,
{
    lemma_marker_names_differ();
    let s = m.attrs;
    let s1 = without_name(s, "secret"@);
    lemma_with_name_skips_other(s, "secret"@, "string"@);
    lemma_with_name_skips_other(s, "secret"@, "int"@);
    lemma_with_name_skips_other(s1, "string"@, "int"@);
}

proof fn lemma_marker_names_differ()
    ensures
        "secret"@ != "string"@,
        "secret"@ != "int"@,
        "string"@ != "int"@,
{
    reveal_strlit("secret");
    reveal_strlit("string");
    reveal_strlit("int");
    assert("secret"@[1] != "string"@[1]);
    assert("secret"@.len() != "int"@.len());
    assert("string"@.len() != "int"@.len());
}

} // verus!
