//! Front end of a generator of wrapper types ("microtypes"): it parses a
//! compact declaration, flattens it into one specification per wrapper,
//! validates the control annotations of each and decides which groups of
//! capabilities the wrapper receives.
use vstd::prelude::*;

pub mod token;
pub mod model;
pub mod error;
pub mod attrs;
pub mod plan;
pub mod parse;

use crate::token::{Token, toks};
use crate::model::{MicrotypeMacro, DeclV, flatten, flatten_spec};
use crate::error::MicrotypeError;
use crate::plan::{Features, MicrotypeResult, codegen, codegen_spec, result_view};
use crate::parse::{renders, well_formed_input};

verus! {

/// A trait implemented by microtypes: construction from the inner value
/// and access to it.
pub trait Microtype: Sized {
    /// The type of the wrapped value.
    type Inner;

    /// Creates a microtype from the inner value.
    fn new(inner: Self::Inner) -> Self;

    /// Consumes this microtype and returns the value it contains.
    fn into_inner(self) -> Self::Inner;

    /// A shared reference to the inner value.
    fn inner(&self) -> &Self::Inner;

    /// A mutable reference to the inner value.
    fn inner_mut(&mut self) -> &mut Self::Inner;
}

/// A trait implemented by secret microtypes. They can be built from the
/// inner value but give no owned or mutable access to it: the value is
/// read only through the exposure accessor of the secret box that holds it.
pub trait SecretMicrotype: Sized {
    /// The type of the wrapped value.
    type Inner;

    /// Creates a secret microtype from the inner value.
    fn new(inner: Self::Inner) -> Self;
}

/// Explicitly converts one microtype into another with the same inner type,
/// moving the inner value across.
pub fn convert<A: Microtype, B: Microtype<Inner = A::Inner>>(a: A) -> B {
    B::new(a.into_inner())
}

/// Runs the whole pipeline on the tokens of an invocation: parse, flatten,
/// then validate and plan every wrapper on its own. A grammar error fails
/// the whole invocation; an error of one wrapper stands in that wrapper's
/// place, in order, and does not stop the others.
pub fn microtype(tokens: &Vec<Token>, features: Features) -> (r: Result<
    Vec<MicrotypeResult>,
    MicrotypeError,
>)
    ensures
        match r {
            Ok(out) => exists|ds: Seq<DeclV>|
                renders(ds, toks(tokens@)) && #[trigger] codegen_spec(flatten_spec(ds), features)
                    == out@.map_values(|x: MicrotypeResult| result_view(x)),
            Err(e) => crate::error::kind_of(e) == crate::error::ErrorKind::Grammar,
        },
        well_formed_input(toks(tokens@)) ==> r is Ok,
{
    let m = match MicrotypeMacro::parse(tokens) {
        Ok(m) => m,
        Err(e) => {
            return Err(MicrotypeError::Grammar { span: e.span() });
        },
    };
    let ghost ds = m@;
    let microtypes = flatten(m);
    let out = codegen(microtypes, features);
    assert(codegen_spec(flatten_spec(ds), features) == out@.map_values(
        |x: MicrotypeResult| result_view(x),
    ));
    Ok(out)
}

} // verus!
