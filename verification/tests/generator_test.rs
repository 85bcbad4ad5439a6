use silly_ecs::gen_entity::secs_impl_entity;
use silly_ecs::tokens::{entity_tokens, system_tokens};
use silly_ecs::gen_system::{secs_system, system_wrapper_source, SigInfo};
use silly_ecs::names::{field_name, mut_name, pred_name, sys_fn_name};
use silly_ecs::parse::{
    parse_component_list, parse_system_attributes, ComponentAttribute, ParseError,
};

#[test]
fn snake_case_names() {
    assert_eq!(field_name("NumComponent"), "num_component");
    assert_eq!(field_name("HTTPFooBar"), "http_foo_bar");
    assert_eq!(field_name("fooBar3"), "foo_bar_3");
    assert_eq!(mut_name("FooBar"), "mut_foo_bar");
    assert_eq!(pred_name("FooBar"), "has_foo_bar");
    assert_eq!(sys_fn_name("inc_num"), "sys_inc_num");
}

#[test]
fn component_list_accepts_idents_and_trailing_comma() {
    assert_eq!(
        parse_component_list("NumComponent, StringComponent").unwrap(),
        vec!["NumComponent".to_string(), "StringComponent".to_string()]
    );
    assert_eq!(parse_component_list(" A ,B, ").unwrap(), vec!["A".to_string(), "B".to_string()]);
    assert_eq!(parse_component_list("").unwrap(), Vec::<String>::new());
}

#[test]
fn component_list_accepts_unicode_identifiers() {
    assert_eq!(
        parse_component_list("\u{e9}t\u{e9}, _foo").unwrap(),
        vec!["\u{e9}t\u{e9}".to_string(), "_foo".to_string()]
    );
}

#[test]
fn component_list_rejects_bad_inputs() {
    assert_eq!(parse_component_list("A B"), Err(ParseError::Syntax));
    assert_eq!(parse_component_list(",A"), Err(ParseError::Syntax));
    assert_eq!(parse_component_list("mut"), Err(ParseError::Syntax));
    assert_eq!(parse_component_list("A $ B"), Err(ParseError::Lex));
}

#[test]
fn component_list_rejects_keywords() {
    assert_eq!(parse_component_list("fn"), Err(ParseError::Syntax));
    assert_eq!(parse_component_list("_"), Err(ParseError::Syntax));
    assert_eq!(parse_component_list("struct"), Err(ParseError::Syntax));
    assert_eq!(parse_component_list("Self"), Err(ParseError::Syntax));
    assert_eq!(parse_component_list("A, loop"), Err(ParseError::Syntax));
}

#[test]
fn system_attributes_accept_mut_markers() {
    let attrs = parse_system_attributes("mut NumComponent, FloatComponent").unwrap();
    assert_eq!(
        attrs,
        vec![
            ComponentAttribute { name: "NumComponent".to_string(), is_mutable: true },
            ComponentAttribute { name: "FloatComponent".to_string(), is_mutable: false },
        ]
    );
}

#[test]
fn system_attributes_reject_bad_inputs() {
    assert_eq!(parse_system_attributes(""), Err(ParseError::Syntax));
    assert_eq!(parse_system_attributes("A,"), Err(ParseError::Syntax));
    assert_eq!(parse_system_attributes("mut"), Err(ParseError::Syntax));
    assert_eq!(parse_system_attributes("mut mut A"), Err(ParseError::Syntax));
    assert_eq!(parse_system_attributes("A B"), Err(ParseError::Syntax));
    assert_eq!(parse_system_attributes("A ; B"), Err(ParseError::Lex));
}

#[test]
fn system_attributes_reject_keywords() {
    assert_eq!(parse_system_attributes("fn"), Err(ParseError::Syntax));
    assert_eq!(parse_system_attributes("mut fn"), Err(ParseError::Syntax));
    assert_eq!(parse_system_attributes("NumComponent, _"), Err(ParseError::Syntax));
}

#[test]
fn entity_code_for_two_components() {
    let code = secs_impl_entity("NumComponent, StringComponent").unwrap();
    let expected = "#[derive(Default, Debug)]\nstruct Entity {\n    num_component: Option<NumComponent>,\n    string_component: Option<StringComponent>,\n}\n\nimpl Entity {\n    pub fn num_component(&self) -> &NumComponent { self.num_component.as_ref().unwrap() }\n    pub fn string_component(&self) -> &StringComponent { self.string_component.as_ref().unwrap() }\n    pub fn mut_num_component(&mut self) -> &mut NumComponent { self.num_component.as_mut().unwrap() }\n    pub fn mut_string_component(&mut self) -> &mut StringComponent { self.string_component.as_mut().unwrap() }\n    pub fn has_num_component(&self) -> bool { self.num_component.is_some() }\n    pub fn has_string_component(&self) -> bool { self.string_component.is_some() }\n}\n";
    assert_eq!(code, expected);
}

#[test]
fn entity_code_for_no_components() {
    let code = secs_impl_entity("").unwrap();
    assert_eq!(code, "#[derive(Default, Debug)]\nstruct Entity {\n}\n\nimpl Entity {\n}\n");
}

#[test]
fn entity_code_rejects_bad_inputs() {
    assert_eq!(secs_impl_entity("A B"), Err(ParseError::Syntax));
    assert_eq!(secs_impl_entity("A;B"), Err(ParseError::Lex));
    assert_eq!(secs_impl_entity("fn"), Err(ParseError::Syntax));
    assert!(entity_tokens("fn").is_none());
}

#[test]
fn wrapper_for_mutable_system() {
    let attrs = parse_system_attributes("mut NumComponent").unwrap();
    let sig = SigInfo {
        name: "inc_num".to_string(),
        generics: String::new(),
        where_clause: None,
        inputs: vec!["entity: &mut Entity".to_string()],
    };
    let code = system_wrapper_source(&attrs, &sig).unwrap();
    let expected = "fn sys_inc_num(entities: &mut Entities) {\n    for entity in entities.iter_mut().filter(|entity| entity.has_num_component()) {\n        inc_num(entity)\n    }\n}\n";
    assert_eq!(code, expected);
}

#[test]
fn wrapper_for_immutable_system_with_extra_input() {
    let attrs = parse_system_attributes("NumComponent, StringComponent").unwrap();
    let sig = SigInfo {
        name: "print_data".to_string(),
        generics: String::new(),
        where_clause: None,
        inputs: vec!["entity: &Entity".to_string(), "spy: &mut SystemSpy".to_string()],
    };
    let code = system_wrapper_source(&attrs, &sig).unwrap();
    let expected = "fn sys_print_data(entities: &Entities, spy: &mut SystemSpy) {\n    for entity in entities.iter().filter(|entity| entity.has_num_component() && entity.has_string_component()) {\n        print_data(entity, spy)\n    }\n}\n";
    assert_eq!(code, expected);
}

#[test]
fn wrapper_for_generic_system_with_where_clause() {
    let attrs = parse_system_attributes("NumComponent, FloatComponent, StringComponent").unwrap();
    let sig = SigInfo {
        name: "render_data".to_string(),
        generics: "T: Renderer".to_string(),
        where_clause: Some("where T: Renderer".to_string()),
        inputs: vec!["entity: &Entity".to_string(), "renderer: &T".to_string()],
    };
    let code = system_wrapper_source(&attrs, &sig).unwrap();
    let expected = "fn sys_render_data<T: Renderer>(entities: &Entities, renderer: &T) where T: Renderer {\n    for entity in entities.iter().filter(|entity| entity.has_num_component() && entity.has_float_component() && entity.has_string_component()) {\n        render_data(entity, renderer)\n    }\n}\n";
    assert_eq!(code, expected);
}

#[test]
fn wrapper_rejects_unnamed_extra_input() {
    let attrs = parse_system_attributes("NumComponent").unwrap();
    let sig = SigInfo {
        name: "f".to_string(),
        generics: String::new(),
        where_clause: None,
        inputs: vec!["entity: &Entity".to_string(), "(a, b): (u32, u32)".to_string()],
    };
    assert_eq!(system_wrapper_source(&attrs, &sig), Err(ParseError::Syntax));
}

#[test]
fn full_system_expansion_keeps_the_function() {
    let fn_source = "fn inc_num(entity: &mut Entity) { entity.mut_num_component().num += 5; }";
    let code = secs_system("mut NumComponent", fn_source).unwrap();
    let expected = "fn inc_num(entity: &mut Entity) { entity.mut_num_component().num += 5; }\nfn sys_inc_num(entities: &mut Entities) {\n    for entity in entities.iter_mut().filter(|entity| entity.has_num_component()) {\n        inc_num(entity)\n    }\n}\n";
    assert_eq!(code, expected);
}

#[test]
fn token_streams_for_generated_code() {
    let ts = entity_tokens("NumComponent, StringComponent").unwrap();
    assert!(!ts.to_string().is_empty());
    assert!(entity_tokens("A B").is_none());
    assert!(system_tokens("mut NumComponent", "fn inc_num(entity: &mut Entity) {}").is_some());
    assert!(system_tokens("", "fn inc_num(entity: &mut Entity) {}").is_none());
}

#[test]
fn full_system_expansion_rejects_bad_sources() {
    let fn_source = "fn inc_num(entity: &mut Entity) {}";
    assert_eq!(secs_system("", fn_source), Err(ParseError::Syntax));
    assert_eq!(secs_system("mut NumComponent", "fn !!!"), Err(ParseError::Syntax));
}
