//! The capability dispatcher: which groups of generated items a wrapper
//! receives, given its control annotations and the enabled families.
use vstd::prelude::*;
use crate::token::{Token, Tok, toks, copy_tokens};
use crate::model::{Attr, AttrV, Microtype, MicrotypeV, attrs_view, microtypes_view};
use crate::attrs::{SpecialAttrs, SpecialV, TypeAnnotation, strip_special_attrs, strip_spec};
use crate::error::MicrotypeError;

verus! {

/// The build-wide capability families.
#[derive(Clone, Copy, Debug, PartialEq, Eq, Structural)]
pub struct Features {
    /// Transparent serialization, column mapping and `secret(serialize)`.
    pub serde: bool,
    /// Dereference to the inner value.
    pub deref_impls: bool,
    /// Secret wrappers at all.
    pub secret: bool,
    /// Secret wrappers print their value in test builds and need no
    /// test-only equality.
    pub test_impls: bool,
}

/// The two shapes of generated wrapper.
#[derive(Clone, Copy, Debug, PartialEq, Eq, Structural)]
pub enum Variant {
    Normal,
    Secret,
}

/// The groups of items generated for one wrapper.
#[derive(Clone, Copy, Debug, PartialEq, Eq, Structural)]
pub struct CapabilityPlan {
    pub variant: Variant,
    /// The transparent wrapper struct and its construct / consume / borrow /
    /// mutably-borrow / convert implementation.
    pub core: bool,
    /// Conversion from the inner type.
    pub from_inner: bool,
    /// Read and mutable dereference to the inner value.
    pub dereference: bool,
    /// Transparent serialization and deserialization derives.
    pub serde_derive: bool,
    /// The outer and hidden structs of a secret wrapper, with clone, redacted
    /// debug, the secret-box markers, the borrowed exposure accessor and the
    /// constructor.
    pub secret_wrapper: bool,
    /// Deserialization derives on both secret structs.
    pub secret_deserialize: bool,
    /// Serialization on the outer secret struct, and the serializable marker
    /// on the hidden one.
    pub secret_serialize: bool,
    /// Test-build-only debug and equality that show the secret value.
    pub test_debug_eq: bool,
    /// Parse from text, display, construction from text, view as text.
    pub string_ops: bool,
    /// Numeric formatting, arithmetic operators and parsing.
    pub int_ops: bool,
    /// Column read / write implementations.
    pub column_mapping: bool,
}

/// The plan of a wrapper with validated control annotations `s`, or the
/// error that the combination of `s` and `f` gives.
pub open spec fn plan_spec(s: SpecialV, f: Features) -> Result<CapabilityPlan, MicrotypeError> {
    match s.secret {
        None => Ok(
            CapabilityPlan {
                variant: Variant::Normal,
                core: true,
                from_inner: true,
                dereference: f.deref_impls,
                serde_derive: f.serde,
                secret_wrapper: false,
                secret_deserialize: false,
                secret_serialize: false,
                test_debug_eq: false,
                string_ops: s.type_annotation == Some(TypeAnnotation::String),
                int_ops: s.type_annotation == Some(TypeAnnotation::Int),
                column_mapping: s.diesel_type is Some && f.serde,
            },
        ),
        Some(sec) => if sec.serialize && !f.serde {
            Err(MicrotypeError::SerializeWithoutSerde { span: sec.span })
        } else if !f.secret {
            Err(MicrotypeError::SecretFeatureMissing { span: sec.span })
        } else if s.type_annotation == Some(TypeAnnotation::Int) {
            Err(MicrotypeError::IntSecret { span: sec.span })
        } else {
            Ok(
                CapabilityPlan {
                    variant: Variant::Secret,
                    core: false,
                    from_inner: false,
                    dereference: false,
                    serde_derive: false,
                    secret_wrapper: true,
                    secret_deserialize: sec.serialize && f.serde,
                    secret_serialize: sec.serialize && f.serde,
                    test_debug_eq: !f.test_impls,
                    string_ops: s.type_annotation == Some(TypeAnnotation::String),
                    int_ops: false,
                    column_mapping: false,
                },
            )
        },
    }
}

/// Whether a plan gives owned or mutable access to the inner value.
pub open spec fn owning_or_mutable_access(p: CapabilityPlan) -> bool {
    p.core || p.from_inner || p.dereference || p.int_ops || p.column_mapping
}

/// Decides the capability groups of a wrapper.
pub fn dispatch(special: &SpecialAttrs, features: Features) -> (r: Result<CapabilityPlan, MicrotypeError>)
    ensures
        r == plan_spec(special@, features),
{
    let kind = special.type_annotation;
    match special.secret {
        None => {
            let string_ops = match kind {
                Some(TypeAnnotation::String) => true,
                _ => false,
            };
            let int_ops = match kind {
                Some(TypeAnnotation::Int) => true,
                _ => false,
            };
            let has_column = match &special.diesel_type {
                Some(_) => true,
                None => false,
            };
            Ok(
                CapabilityPlan {
                    variant: Variant::Normal,
                    core: true,
                    from_inner: true,
                    dereference: features.deref_impls,
                    serde_derive: features.serde,
                    secret_wrapper: false,
                    secret_deserialize: false,
                    secret_serialize: false,
                    test_debug_eq: false,
                    string_ops,
                    int_ops,
                    column_mapping: has_column && features.serde,
                },
            )
        },
        Some(sec) => {
            if sec.serialize && !features.serde {
                return Err(MicrotypeError::SerializeWithoutSerde { span: sec.span });
            }
            if !features.secret {
                return Err(MicrotypeError::SecretFeatureMissing { span: sec.span });
            }
            let string_ops = match kind {
                Some(TypeAnnotation::String) => true,
                Some(TypeAnnotation::Int) => {
                    return Err(MicrotypeError::IntSecret { span: sec.span });
                },
                None => false,
            };
            Ok(
                CapabilityPlan {
                    variant: Variant::Secret,
                    core: false,
                    from_inner: false,
                    dereference: false,
                    serde_derive: false,
                    secret_wrapper: true,
                    secret_deserialize: sec.serialize && features.serde,
                    secret_serialize: sec.serialize && features.serde,
                    test_debug_eq: !features.test_impls,
                    string_ops,
                    int_ops: false,
                    column_mapping: false,
                },
            )
        },
    }
}

/// Everything needed to emit the items of one wrapper.
#[derive(Debug)]
pub struct Generated {
    pub name: String,
    pub inner: Vec<Token>,
    pub vis: Vec<Token>,
    /// The pass-through annotations, re-emitted in order on the wrapper.
    pub attrs: Vec<Attr>,
    /// The name of the hidden inner struct of a secret wrapper.
    pub wrapper: Option<String>,
    /// The column type, where column mapping is generated.
    pub column_type: Option<Vec<Token>>,
    pub plan: CapabilityPlan,
}

/// The value of what is emitted for one wrapper.
pub struct GeneratedV {
    pub name: Seq<char>,
    pub inner: Seq<Tok>,
    pub vis: Seq<Tok>,
    pub attrs: Seq<AttrV>,
    pub wrapper: Option<Seq<char>>,
    pub column_type: Option<Seq<Tok>>,
    pub plan: CapabilityPlan,
}

impl View for Generated {
    type V = GeneratedV;

    open spec fn view(&self) -> GeneratedV {
        GeneratedV {
            name: self.name@,
            inner: toks(self.inner@),
            vis: toks(self.vis@),
            attrs: attrs_view(self.attrs@),
            wrapper: match self.wrapper {
                Some(w) => Some(w@),
                None => None,
            },
            column_type: match self.column_type {
                Some(t) => Some(toks(t@)),
                None => None,
            },
            plan: self.plan,
        }
    }
}

/// The name of the hidden inner struct of the secret wrapper `name`.
pub open spec fn hidden_name(name: Seq<char>) -> Seq<char> {
    "__Wrapper"@ + name
}

/// What is emitted for the wrapper specification `m`, or its error.
pub open spec fn generate_spec(m: MicrotypeV, f: Features) -> Result<GeneratedV, MicrotypeError> {
    match strip_spec(m.attrs) {
        Err(e) => Err(e),
        Ok((rest, special)) => match plan_spec(special, f) {
            Err(e) => Err(e),
            Ok(plan) => Ok(
                GeneratedV {
                    name: m.name,
                    inner: m.inner,
                    vis: m.vis,
                    attrs: rest,
                    wrapper: if plan.secret_wrapper {
                        Some(hidden_name(m.name))
                    } else {
                        None
                    },
                    column_type: if plan.column_mapping {
                        special.diesel_type
                    } else {
                        None
                    },
                    plan,
                },
            ),
        },
    }
}

/// Validates one wrapper specification and decides what is emitted for it.
pub fn generate_single(microtype: Microtype, features: Features) -> (r: Result<Generated, MicrotypeError>)
    ensures
        match r {
            Ok(g) => generate_spec(microtype@, features) == Ok::<GeneratedV, MicrotypeError>(g@),
            Err(e) => generate_spec(microtype@, features) == Err::<GeneratedV, MicrotypeError>(e),
        },
{
    let Microtype { inner, name, vis, attrs } = microtype;
    let (rest, special) = match strip_special_attrs(attrs) {
        Ok(ok) => ok,
        Err(e) => {
            return Err(e);
        },
    };
    let plan = match dispatch(&special, features) {
        Ok(p) => p,
        Err(e) => {
            return Err(e);
        },
    };
    let wrapper = if plan.secret_wrapper {
        let w = String::from_str("__Wrapper").concat(name.as_str());
        Some(w)
    } else {
        None
    };
    let column_type = if plan.column_mapping {
        match &special.diesel_type {
            Some(t) => Some(copy_tokens(t)),
            None => None,
        }
    } else {
        None
    };
    Ok(Generated { name, inner, vis, attrs: rest, wrapper, column_type, plan })
}

/// The results for a list of specifications, one by one.
pub open spec fn codegen_spec(ms: Seq<MicrotypeV>, f: Features) -> Seq<Result<GeneratedV, MicrotypeError>> {
    ms.map_values(|m: MicrotypeV| generate_spec(m, f))
}

/// What is emitted for one wrapper, or its error.
pub type MicrotypeResult = Result<Generated, MicrotypeError>;

/// The value of one result.
pub open spec fn result_view(r: Result<Generated, MicrotypeError>) -> Result<GeneratedV, MicrotypeError> {
    match r {
        Ok(g) => Ok(g@),
        Err(e) => Err(e),
    }
}

/// Processes each specification on its own, in order. An error in one does
/// not stop the others: every specification gets its own result.
pub fn codegen(microtypes: Vec<Microtype>, features: Features) -> (r: Vec<Result<Generated, MicrotypeError>>)
    ensures
        r@.map_values(|x: Result<Generated, MicrotypeError>| result_view(x))
            == codegen_spec(microtypes_view(microtypes@), features),
{
    let ghost ms = microtypes_view(microtypes@);
    assert(ms.len() <= usize::MAX) by {
        assert(ms.len() == microtypes@.len());
        assert(microtypes.len() == microtypes@.len());
    }
    let mut rest = microtypes;
    let mut out: Vec<Result<Generated, MicrotypeError>> = Vec::new();
    let mut i: usize = 0;
    while rest.len() > 0
        invariant
            i + rest@.len() == ms.len(),
            ms.len() <= usize::MAX,
            microtypes_view(rest@) == ms.skip(i as int),
            out@.map_values(|x: Result<Generated, MicrotypeError>| result_view(x))
                == codegen_spec(ms.take(i as int), features),
        decreases rest@.len(),
    {
        let ghost pre = rest@;
        let m = rest.remove(0);
        assert(m@ == ms[i as int]) by {
            assert(microtypes_view(pre)[0] == ms.skip(i as int)[0]);
        }
        assert(microtypes_view(rest@) =~= ms.skip(i + 1)) by {
            assert(rest@ =~= pre.subrange(1, pre.len() as int));
            assert forall|k: int| 0 <= k < rest@.len() implies microtypes_view(rest@)[k] == ms.skip(
                i + 1,
            )[k] by {
                assert(microtypes_view(pre)[k + 1] == ms.skip(i as int)[k + 1]);
            }
        }
        let r = generate_single(m, features);
        assert(result_view(r) == generate_spec(ms[i as int], features));
        let ghost before = out@;
        out.push(r);
        assert(out@ == before.push(r));
        assert(out@.map_values(|x: Result<Generated, MicrotypeError>| result_view(x))
            =~= before.map_values(|x: Result<Generated, MicrotypeError>| result_view(x)).push(result_view(r)));
        assert(out@.map_values(|x: Result<Generated, MicrotypeError>| result_view(x))
            =~= codegen_spec(ms.take(i + 1), features));
        i = i + 1;
    }
    assert(ms.take(i as int) =~= ms);
    out
}

/// The plan of a wrapper is a function of its control record and the
/// enabled families alone: two wrappers whose annotations validate to the
/// same control record get the same plan, or the same error, whatever their
/// names, inner types and pass-through annotations.
pub proof fn plan_is_function_of_control(m1: MicrotypeV, m2: MicrotypeV, f: Features)
    requires
        strip_spec(m1.attrs) is Ok,
        strip_spec(m2.attrs) is Ok,
        (strip_spec(m1.attrs)->Ok_0).1 == (strip_spec(m2.attrs)->Ok_0).1,
    ensures
        generate_spec(m1, f) is Ok <==> generate_spec(m2, f) is Ok,
        generate_spec(m1, f) is Ok ==> (generate_spec(m1, f)->Ok_0).plan == (generate_spec(
            m2,
            f,
        )->Ok_0).plan,
        generate_spec(m1, f) is Err ==> generate_spec(m1, f) == generate_spec(m2, f),
{
}

/// A secret wrapper never gets owned or mutable access to its inner value:
/// its only access is the borrowed exposure accessor.
pub proof fn secret_exposes_only_borrowed(m: MicrotypeV, f: Features)
    requires
        strip_spec(m.attrs) is Ok,
        (strip_spec(m.attrs)->Ok_0).1.secret is Some,
        generate_spec(m, f) is Ok,
    ensures
        !owning_or_mutable_access((generate_spec(m, f)->Ok_0).plan),
        (generate_spec(m, f)->Ok_0).plan.secret_wrapper,
        (generate_spec(m, f)->Ok_0).plan.variant == Variant::Secret,
{
}

} // verus!
