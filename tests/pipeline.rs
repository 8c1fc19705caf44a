use microtype::attrs::{find_diesel_attr, strip_special_attrs, strip_type_annotation, TypeAnnotation};
use microtype::error::{ErrorKind, MicrotypeError};
use microtype::microtype;
use microtype::model::{flatten, Attr, AttrIdent, MicrotypeDecl, MicrotypeMacro};
use microtype::plan::{dispatch, CapabilityPlan, Features, Generated, MicrotypeResult, Variant};
use microtype::token::{Delim, Token};

fn lex(s: &str) -> Vec<Token> {
    let chars: Vec<char> = s.chars().collect();
    let mut out = Vec::new();
    let mut i = 0;
    while i < chars.len() {
        let c = chars[i];
        if c.is_whitespace() {
            i += 1;
        } else if c.is_alphanumeric() || c == '_' {
            let start = i;
            while i < chars.len() && (chars[i].is_alphanumeric() || chars[i] == '_') {
                i += 1;
            }
            out.push(Token::Ident(chars[start..i].iter().collect()));
        } else if c == '"' {
            let start = i;
            i += 1;
            while i < chars.len() && chars[i] != '"' {
                i += 1;
            }
            i += 1;
            out.push(Token::Literal(chars[start..i].iter().collect()));
        } else {
            out.push(match c {
                '(' => Token::Open(Delim::Paren),
                '[' => Token::Open(Delim::Bracket),
                '{' => Token::Open(Delim::Brace),
                ')' => Token::Close(Delim::Paren),
                ']' => Token::Close(Delim::Bracket),
                '}' => Token::Close(Delim::Brace),
                other => Token::Punct(other),
            });
            i += 1;
        }
    }
    out
}

fn text(tokens: &[Token]) -> String {
    let parts: Vec<String> = tokens
        .iter()
        .map(|t| match t {
            Token::Ident(s) | Token::Literal(s) => s.clone(),
            Token::Punct(c) => c.to_string(),
            Token::Open(Delim::Paren) => "(".to_string(),
            Token::Open(Delim::Bracket) => "[".to_string(),
            Token::Open(Delim::Brace) => "{".to_string(),
            Token::Close(Delim::Paren) => ")".to_string(),
            Token::Close(Delim::Bracket) => "]".to_string(),
            Token::Close(Delim::Brace) => "}".to_string(),
        })
        .collect();
    parts.join(" ").replace(": :", "::")
}

fn attr_text(a: &Attr) -> String {
    let mut s = format!("# [{}", a.name);
    if !a.args.is_empty() {
        s.push(' ');
        s.push_str(&text(&a.args));
    }
    s.push(']');
    s
}

fn parse_macro(s: &str) -> MicrotypeMacro {
    MicrotypeMacro::parse(&lex(s)).unwrap()
}

fn all_on() -> Features {
    Features { serde: true, deref_impls: true, secret: true, test_impls: false }
}

fn run(s: &str, f: Features) -> Vec<MicrotypeResult> {
    microtype(&lex(s), f).unwrap()
}

fn single(s: &str, f: Features) -> Result<Generated, MicrotypeError> {
    let mut out = run(s, f);
    assert_eq!(out.len(), 1);
    out.remove(0)
}

// ---- parser ----

#[test]
fn parse_attr_ident() {
    let attr_ident = AttrIdent::parse(&lex("#[foo] asdf")).unwrap();
    assert_eq!(attr_ident.attributes.len(), 1);
    assert_eq!(attr_ident.ident, "asdf");
}

#[test]
fn parse_microtype_decl() {
    let microtype_decl =
        MicrotypeDecl::parse(&lex("#[secret(serialize)] String { #[foo] Email }")).unwrap();
    assert!(microtype_decl.attrs.len() == 1);
    assert_eq!(microtype_decl.idents[0].attributes.len(), 1);
    assert_eq!(microtype_decl.idents[0].ident, "Email");
}

#[test]
fn parse_full_macro() {
    let microtype = parse_macro(
        r#"
#[foo]
#[secret(serialize)]
String {
    Email
}
i64 {
    Age
}
"#,
    );
    assert_eq!(microtype.0.len(), 2);
    let first = &microtype.0[0];
    assert_eq!(first.attrs.len(), 2);
    assert_eq!(text(&first.inner), "String");
}

#[test]
fn parse_empty_input_has_no_blocks() {
    let m = parse_macro("");
    assert!(m.0.is_empty());
}

#[test]
fn parse_empty_name_list_and_trailing_comma() {
    let m = parse_macro("String { } pub(crate) Vec<u8> { A, B, }");
    assert_eq!(m.0.len(), 2);
    assert!(m.0[0].idents.is_empty());
    assert_eq!(text(&m.0[1].vis), "pub ( crate )");
    assert_eq!(text(&m.0[1].inner), "Vec < u8 >");
    assert_eq!(m.0[1].idents.len(), 2);
    assert_eq!(m.0[1].idents[1].ident, "B");
}

#[test]
fn parse_records_annotation_positions() {
    let m = parse_macro("#[foo] String { #[bar] A }");
    assert_eq!(m.0[0].attrs[0].span, 0);
    assert_eq!(m.0[0].idents[0].attributes[0].span, 6);
}

#[test]
fn parse_rejects_missing_brace() {
    let e = MicrotypeMacro::parse(&lex("String Email")).unwrap_err();
    assert_eq!(e, MicrotypeError::Grammar { span: 2 });
    assert_eq!(e.kind(), ErrorKind::Grammar);
}

#[test]
fn parse_rejects_missing_comma() {
    let e = MicrotypeMacro::parse(&lex("String { A B }")).unwrap_err();
    assert_eq!(e, MicrotypeError::Grammar { span: 3 });
}

#[test]
fn parse_rejects_unclosed_annotation() {
    let e = MicrotypeMacro::parse(&lex("#[foo String { A }")).unwrap_err();
    assert_eq!(e.kind(), ErrorKind::Grammar);
}

#[test]
fn pipeline_reports_grammar_error() {
    let e = microtype(&lex("{ A }"), all_on()).unwrap_err();
    assert_eq!(e, MicrotypeError::Grammar { span: 0 });
}

// ---- flattening ----

#[test]
fn correctly_flattens_microtypes() {
    let microtype_macro = parse_macro("#[foo] #[secret] String { #[bar] Email, #[baz] Username }");
    let microtypes = flatten(microtype_macro);
    let first = &microtypes[0];
    let second = &microtypes[1];

    // flattening does not validate: `secret` stays with the block's annotations
    assert_eq!(first.attrs.len(), 3);
    assert_eq!(attr_text(&first.attrs[1]), "# [foo]");
    assert_eq!(attr_text(&first.attrs[2]), "# [secret]");
    assert_eq!(attr_text(&first.attrs[0]), "# [bar]");
    assert_eq!(text(&first.inner), "String");
    assert_eq!(first.name, "Email");

    assert_eq!(second.attrs.len(), 3);
    assert_eq!(attr_text(&second.attrs[1]), "# [foo]");
    assert_eq!(attr_text(&second.attrs[0]), "# [baz]");
    assert_eq!(text(&second.inner), "String");
    assert_eq!(second.name, "Username");
}

#[test]
fn flatten_puts_name_annotations_first_across_blocks() {
    let ms = flatten(parse_macro("#[a] #[b] String { #[c] #[d] X } #[e] i64 { Y, #[f] Z }"));
    let names: Vec<&str> = ms.iter().map(|m| m.name.as_str()).collect();
    assert_eq!(names, vec!["X", "Y", "Z"]);
    let x: Vec<&str> = ms[0].attrs.iter().map(|a| a.name.as_str()).collect();
    assert_eq!(x, vec!["c", "d", "a", "b"]);
    let z: Vec<&str> = ms[2].attrs.iter().map(|a| a.name.as_str()).collect();
    assert_eq!(z, vec!["f", "e"]);
    assert_eq!(text(&ms[2].inner), "i64");
}

// ---- control annotations ----

fn block_attrs(s: &str) -> Vec<Attr> {
    let mut m = parse_macro(s);
    m.0.remove(0).attrs
}

#[test]
fn special_attrs_removes_secret() {
    let attrs = block_attrs("#[derive(Foo)] #[secret] #[string] String { Email }");
    let (attrs, special) = strip_special_attrs(attrs).unwrap();
    assert!(attrs.len() == 1);
    assert!(special.secret.is_some());
    assert!(special.type_annotation.unwrap() == TypeAnnotation::String);
}

#[test]
fn special_attrs_removes_secret_serialize() {
    let attrs = block_attrs("#[derive(Foo)] #[secret(serialize)] String { Email }");
    let (attrs, special) = strip_special_attrs(attrs).unwrap();
    assert!(attrs.len() == 1);
    assert!(special.secret.is_some());
    assert!(special.secret.unwrap().serialize);
}

#[test]
fn mod_removes_secret() {
    let attrs = block_attrs("#[derive(Foo)] #[secret] #[string] String { Email }");
    let (attrs, special) = strip_special_attrs(attrs).unwrap();
    assert!(attrs.len() == 1);
    assert!(special.secret.is_some());
    assert!(special.type_annotation.unwrap() == TypeAnnotation::String);
}

#[test]
fn mod_removes_secret_serialize() {
    let attrs = block_attrs("#[derive(Foo)] #[secret(serialize)] String { Email }");
    let (attrs, special) = strip_special_attrs(attrs).unwrap();
    assert!(attrs.len() == 1);
    assert!(special.secret.is_some());
    assert!(special.secret.unwrap().serialize);
}

#[test]
fn strips_type_attr() {
    let attrs = block_attrs("#[derive(Foo)] #[string] String { Email }");
    let (attrs, type_annotations) = strip_type_annotation(attrs).unwrap();
    assert_eq!(attrs.len(), 1);
    assert_eq!(type_annotations, Some(TypeAnnotation::String));
}

#[test]
fn fails_if_int_and_string() {
    let attrs = block_attrs("#[int] #[string] String { Email }");
    strip_type_annotation(attrs).unwrap_err();
}

#[test]
fn strip_diesel_type_test() {
    let attrs = block_attrs(
        "#[derive(Foo)] #[secret] #[diesel(sql_type = diesel::sql_type::Text)] String { Email }",
    );
    let ty = find_diesel_attr(&attrs);
    assert_eq!(text(&ty.unwrap()), "diesel :: sql_type :: Text");
    let (attrs, special) = strip_special_attrs(attrs).unwrap();
    assert_eq!(attrs.len(), 1);
    assert_eq!(text(&special.diesel_type.unwrap()), "diesel :: sql_type :: Text");
}

#[test]
fn pass_through_annotations_keep_their_order() {
    let attrs = block_attrs("#[a] #[secret] #[b] #[int] #[c] String { X }");
    let (attrs, special) = strip_special_attrs(attrs).unwrap();
    let names: Vec<&str> = attrs.iter().map(|a| a.name.as_str()).collect();
    assert_eq!(names, vec!["a", "b", "c"]);
    assert_eq!(special.type_annotation, Some(TypeAnnotation::Int));
    assert_eq!(special.secret.unwrap().span, 4);
}

#[test]
fn duplicate_secret_is_reported_at_second_marker() {
    let attrs = block_attrs("#[secret(serialize)] #[foo] #[secret] String { X }");
    let e = strip_special_attrs(attrs).unwrap_err();
    assert_eq!(e, MicrotypeError::DuplicateSecret { span: 11 });
    assert_eq!(e.kind(), ErrorKind::Duplicate);
}

#[test]
fn duplicate_secret_regardless_of_arguments() {
    let attrs = block_attrs("#[secret(bogus)] #[secret(bogus)] String { X }");
    let e = strip_special_attrs(attrs).unwrap_err();
    assert_eq!(e, MicrotypeError::DuplicateSecret { span: 7 });
}

#[test]
fn malformed_secret_argument() {
    let attrs = block_attrs("#[secret(serialise)] String { X }");
    let e = strip_special_attrs(attrs).unwrap_err();
    assert_eq!(e, MicrotypeError::MalformedSecret { span: 0 });
    assert_eq!(e.kind(), ErrorKind::Grammar);
    let attrs = block_attrs("#[secret = 1] String { X }");
    assert!(strip_special_attrs(attrs).is_err());
}

#[test]
fn empty_secret_list_is_plain_secret() {
    let attrs = block_attrs("#[secret()] String { X }");
    let (_, special) = strip_special_attrs(attrs).unwrap();
    assert!(!special.secret.unwrap().serialize);
}

#[test]
fn duplicate_string_and_int() {
    let e = strip_special_attrs(block_attrs("#[string] #[string] String { X }")).unwrap_err();
    assert_eq!(e, MicrotypeError::DuplicateString { span: 4 });
    let e = strip_special_attrs(block_attrs("#[int] #[x] #[int] i64 { X }")).unwrap_err();
    assert_eq!(e, MicrotypeError::DuplicateInt { span: 8 });
}

#[test]
fn string_and_int_conflict() {
    let e = strip_special_attrs(block_attrs("#[string] #[secret] #[int] String { X }")).unwrap_err();
    assert_eq!(e, MicrotypeError::ConflictingKinds { span: 8 });
    assert_eq!(e.kind(), ErrorKind::Conflicting);
}

#[test]
fn neither_kind_marker_gives_no_kind() {
    let (_, special) = strip_special_attrs(block_attrs("#[derive(Debug)] String { X }")).unwrap();
    assert_eq!(special.type_annotation, None);
    assert!(special.secret.is_none());
    assert!(special.diesel_type.is_none());
}

#[test]
fn column_marker_errors() {
    let e = strip_special_attrs(block_attrs(
        "#[diesel(sql_type = Text)] #[diesel(sql_type = Int)] String { X }",
    ))
    .unwrap_err();
    assert_eq!(e, MicrotypeError::DuplicateColumn { span: 9 });
    let e = strip_special_attrs(block_attrs("#[diesel(Text)] String { X }")).unwrap_err();
    assert_eq!(e, MicrotypeError::MalformedColumn { span: 0 });
}

// ---- dispatch ----

#[test]
fn secret_plan_without_serialization() {
    let f = Features { serde: false, deref_impls: true, secret: true, test_impls: false };
    let g = single("#[secret] String { Password }", f).unwrap();
    assert_eq!(g.plan.variant, Variant::Secret);
    assert!(g.plan.secret_wrapper);
    assert!(!g.plan.serde_derive);
    assert!(!g.plan.secret_serialize);
    assert!(!g.plan.core);
    assert_eq!(g.wrapper.as_deref(), Some("__WrapperPassword"));
}

#[test]
fn serialize_marker_without_serde() {
    let f = Features { serde: false, deref_impls: false, secret: true, test_impls: false };
    let e = single("#[secret(serialize)] String { Token }", f).unwrap_err();
    assert_eq!(e, MicrotypeError::SerializeWithoutSerde { span: 0 });
    assert_eq!(e.kind(), ErrorKind::Unsupported);
    assert!(e.message().contains("serialize"));
}

#[test]
fn string_and_int_markers_in_pipeline() {
    let e = single("#[string] #[int] String { Bad }", all_on()).unwrap_err();
    assert_eq!(e.kind(), ErrorKind::Conflicting);
}

#[test]
fn two_plain_names_give_two_normal_plans() {
    let out = run("String { A, B }", all_on());
    assert_eq!(out.len(), 2);
    for (r, name) in out.into_iter().zip(["A", "B"]) {
        let g = r.unwrap();
        assert_eq!(g.name, name);
        assert_eq!(g.plan.variant, Variant::Normal);
        assert!(g.plan.core);
        assert!(!g.plan.string_ops && !g.plan.int_ops);
        assert!(!g.plan.secret_wrapper && !g.plan.column_mapping);
        assert!(g.wrapper.is_none() && g.column_type.is_none());
    }
}

#[test]
fn secret_family_missing() {
    let f = Features { serde: true, deref_impls: true, secret: false, test_impls: false };
    let e = single("#[foo] #[secret] String { P }", f).unwrap_err();
    assert_eq!(e, MicrotypeError::SecretFeatureMissing { span: 4 });
}

#[test]
fn int_secret_is_rejected() {
    let e = single("#[secret] #[int] i64 { Pin }", all_on()).unwrap_err();
    assert_eq!(e, MicrotypeError::IntSecret { span: 0 });
}

#[test]
fn secret_serialize_with_serde() {
    let f = Features { serde: true, deref_impls: true, secret: true, test_impls: true };
    let g = single("#[secret(serialize)] #[string] String { Jwt }", f).unwrap();
    assert!(g.plan.secret_serialize && g.plan.secret_deserialize);
    assert!(g.plan.string_ops);
    assert!(!g.plan.test_debug_eq);
    assert!(!g.plan.dereference && !g.plan.from_inner);
}

#[test]
fn normal_plan_follows_families() {
    let f = Features { serde: false, deref_impls: false, secret: false, test_impls: false };
    let g = single("#[int] #[diesel(sql_type = BigInt)] i64 { Age }", f).unwrap();
    assert!(g.plan.int_ops && !g.plan.string_ops);
    assert!(!g.plan.dereference && !g.plan.serde_derive && !g.plan.column_mapping);
    let g = single("#[int] #[diesel(sql_type = BigInt)] i64 { Age }", all_on()).unwrap();
    assert!(g.plan.dereference && g.plan.serde_derive && g.plan.column_mapping);
    assert_eq!(text(&g.column_type.unwrap()), "BigInt");
}

#[test]
fn plan_is_the_same_on_repeated_runs() {
    let a = run("#[secret] #[string] String { P } #[int] i64 { N }", all_on());
    let b = run("#[secret] #[string] String { P } #[int] i64 { N }", all_on());
    let pa: Vec<CapabilityPlan> = a.iter().map(|r| r.as_ref().unwrap().plan).collect();
    let pb: Vec<CapabilityPlan> = b.iter().map(|r| r.as_ref().unwrap().plan).collect();
    assert_eq!(pa, pb);
    let mut m = parse_macro("#[string] String { Q }");
    let d = m.0.remove(0);
    let (_, special) = strip_special_attrs(d.attrs).unwrap();
    assert_eq!(dispatch(&special, all_on()), dispatch(&special, all_on()));
}

#[test]
fn error_in_one_wrapper_does_not_stop_others() {
    let out = run("String { A, #[int] #[int] B, C }", all_on());
    assert_eq!(out.len(), 3);
    assert!(out[0].is_ok());
    assert_eq!(out[1].as_ref().unwrap_err().kind(), ErrorKind::Duplicate);
    assert_eq!(out[2].as_ref().unwrap().name, "C");
}

#[test]
fn pass_through_annotations_reach_the_output() {
    let g = single("#[derive(Debug)] #[string] String { #[doc = \"x\"] Email }", all_on()).unwrap();
    let names: Vec<&str> = g.attrs.iter().map(|a| a.name.as_str()).collect();
    assert_eq!(names, vec!["doc", "derive"]);
    assert_eq!(text(&g.inner), "String");
}

#[test]
fn find_diesel_attr_without_marker() {
    assert!(find_diesel_attr(&block_attrs("#[foo] String { X }")).is_none());
    assert!(find_diesel_attr(&block_attrs("#[diesel(Text)] String { X }")).is_none());
}

#[test]
fn messages_name_the_marker() {
    assert_eq!(
        MicrotypeError::DuplicateSecret { span: 3 }.message(),
        "duplicate `secret` attribute found"
    );
    assert_eq!(MicrotypeError::DuplicateSecret { span: 3 }.span(), 3);
    assert_eq!(MicrotypeError::IntSecret { span: 0 }.kind(), ErrorKind::Unsupported);
}
