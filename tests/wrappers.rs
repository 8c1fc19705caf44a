use microtype::{convert, Microtype, SecretMicrotype};
use secrecy::ExposeSecret as _;

// Wrapper types written the way the generator emits them for a plain
// (non-secret) declaration.

#[derive(Debug, Clone, PartialEq, Eq)]
pub struct Email(pub String);

impl Microtype for Email {
    type Inner = String;
    fn new(inner: String) -> Self {
        Self(inner)
    }
    fn into_inner(self) -> String {
        self.0
    }
    fn inner(&self) -> &String {
        &self.0
    }
    fn inner_mut(&mut self) -> &mut String {
        &mut self.0
    }
}

#[derive(Debug, Clone, PartialEq, Eq)]
pub struct Username(pub String);

impl Microtype for Username {
    type Inner = String;
    fn new(inner: String) -> Self {
        Self(inner)
    }
    fn into_inner(self) -> String {
        self.0
    }
    fn inner(&self) -> &String {
        &self.0
    }
    fn inner_mut(&mut self) -> &mut String {
        &mut self.0
    }
}

#[derive(Debug, Clone, PartialEq, Eq)]
pub struct Name(pub String);

impl Microtype for Name {
    type Inner = String;
    fn new(inner: String) -> Self {
        Self(inner)
    }
    fn into_inner(self) -> String {
        self.0
    }
    fn inner(&self) -> &String {
        &self.0
    }
    fn inner_mut(&mut self) -> &mut String {
        &mut self.0
    }
}

#[derive(Debug, Clone, PartialEq, Eq)]
pub struct Address(pub String);

impl Microtype for Address {
    type Inner = String;
    fn new(inner: String) -> Self {
        Self(inner)
    }
    fn into_inner(self) -> String {
        self.0
    }
    fn inner(&self) -> &String {
        &self.0
    }
    fn inner_mut(&mut self) -> &mut String {
        &mut self.0
    }
}

#[derive(Debug, Clone, Copy, PartialEq)]
pub struct X(pub f64);

impl Microtype for X {
    type Inner = f64;
    fn new(inner: f64) -> Self {
        Self(inner)
    }
    fn into_inner(self) -> f64 {
        self.0
    }
    fn inner(&self) -> &f64 {
        &self.0
    }
    fn inner_mut(&mut self) -> &mut f64 {
        &mut self.0
    }
}

#[derive(Debug, Clone, Copy, PartialEq)]
pub struct Y(pub f64);

impl Microtype for Y {
    type Inner = f64;
    fn new(inner: f64) -> Self {
        Self(inner)
    }
    fn into_inner(self) -> f64 {
        self.0
    }
    fn inner(&self) -> &f64 {
        &self.0
    }
    fn inner_mut(&mut self) -> &mut f64 {
        &mut self.0
    }
}

#[derive(Debug, Clone, Copy, PartialEq)]
pub struct Z(pub f64);

impl Microtype for Z {
    type Inner = f64;
    fn new(inner: f64) -> Self {
        Self(inner)
    }
    fn into_inner(self) -> f64 {
        self.0
    }
    fn inner(&self) -> &f64 {
        &self.0
    }
    fn inner_mut(&mut self) -> &mut f64 {
        &mut self.0
    }
}

#[test]
fn email_example() {
    let email = "email".to_string();
    let mut email = Email::new(email);
    assert_eq!(email.inner(), "email");
    assert_eq!(email.inner_mut(), "email");
    assert_eq!(email.into_inner(), "email");
}

#[test]
fn email_clone() {
    let email = Email::new("email".into());
    let cloned = email.clone();
    assert_eq!(email, cloned);
}

#[test]
fn can_transmute() {
    let email = Email::new("user@example.com".to_string());
    let cloned = email.clone();
    let username: Username = convert(email);
    assert_eq!(cloned.into_inner(), username.into_inner());
}

#[test]
fn multiple_declarations() {
    let name = Name::new("name".into());
    let address = Address::new("example road".into());
    assert_eq!(name.into_inner(), "name");
    assert_eq!(address.into_inner(), "example road");
}

#[test]
fn multiple_declarations_with_traits() {
    let x = X::new(1.0);
    let y = Y::new(2.0);
    let z = Z::new(3.0);

    assert_eq!(x.into_inner(), 1.0);
    assert_eq!(y.into_inner(), 2.0);
    assert_eq!(z.into_inner(), 3.0);
}

#[test]
fn inner_mut_changes_the_value() {
    let mut email = Email::new("a".to_string());
    email.inner_mut().push('b');
    assert_eq!(email.inner(), "ab");
}

// A secret wrapper written the way the generator emits it.

#[derive(Clone, Debug)]
struct WrapperPassword(String);

impl secrecy::CloneableSecret for WrapperPassword {}
impl secrecy::DebugSecret for WrapperPassword {}
impl secrecy::Zeroize for WrapperPassword {
    fn zeroize(&mut self) {
        secrecy::Zeroize::zeroize(&mut self.0)
    }
}

#[derive(Clone, Debug)]
pub struct Password(secrecy::Secret<WrapperPassword>);

impl secrecy::ExposeSecret<String> for Password {
    fn expose_secret(&self) -> &String {
        &self.0.expose_secret().0
    }
}

impl SecretMicrotype for Password {
    type Inner = String;
    fn new(inner: String) -> Self {
        Self(secrecy::Secret::new(WrapperPassword(inner)))
    }
}

#[test]
fn example_non_serializable() {
    let password = Password::new("asdf".into());
    let debug = format!("{:?}", password);
    assert!(!debug.contains("asdf"));
    let _ = password.clone();
}

#[test]
fn secret_is_read_through_exposure() {
    let password = Password::new("x".into());
    assert_eq!(password.expose_secret(), "x");
}
