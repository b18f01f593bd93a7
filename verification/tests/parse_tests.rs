use thrift_scope_filter::parse::{
    add_method, add_service, collect_annotations, collect_methods, collect_services,
    parse_annotations, parse_thrift,
};
use thrift_scope_filter::string_map::StringMap;

#[test]
fn test_parse_annotations_basic() {
    let input = r#"scope="read" role="chef""#;
    let annotations = parse_annotations(input);
    assert_eq!(annotations.get("scope"), Some(&"read".to_string()));
    assert_eq!(annotations.get("role"), Some(&"chef".to_string()));
}

#[test]
fn test_parse_thrift_potato_service() {
    let thrift_content = r#"
        namespace go my.potato

        service PotatoService {
            string getPotato(1:string id) (scope="read")
            void mashPotato(1:string id, 2:i32 level) (scope="write" role="chef")
        }
    "#;

    let services = parse_thrift(thrift_content).expect("Failed to parse Thrift content");
    println!("services: {:?}", services);
    let service = services
        .get("my.potato.PotatoService")
        .expect("Service not found");

    let get_potato = service
        .methods
        .get("getPotato")
        .expect("Method getPotato not found");
    assert_eq!(get_potato.return_type, "string");
    assert_eq!(
        get_potato.annotations.get("scope"),
        Some(&"read".to_string())
    );

    let mash_potato = service
        .methods
        .get("mashPotato")
        .expect("Method mashPotato not found");
    assert_eq!(mash_potato.return_type, "void");
    assert_eq!(
        mash_potato.annotations.get("scope"),
        Some(&"write".to_string())
    );
    assert_eq!(
        mash_potato.annotations.get("role"),
        Some(&"chef".to_string())
    );
}

#[test]
fn test_parse_thrift_multiline_annotations() {
    let thrift_content = r#"
            namespace go my.potato
            service PotatoService {
                void bakePotato(
                    1:string type,
                    2:i32 temp
                ) (
                    scope = "oven",
                    role = "baker"
                )
            }
        "#;

    let services = parse_thrift(thrift_content).unwrap();
    let service = services.get("my.potato.PotatoService").unwrap();
    let method = service.methods.get("bakePotato").unwrap();

    assert_eq!(method.return_type, "void");
    assert_eq!(method.annotations.get("scope"), Some(&"oven".to_string()));
    assert_eq!(method.annotations.get("role"), Some(&"baker".to_string()));
}

#[test]
fn test_parse_thrift_invalid_annotation_format() {
    let thrift_content = r#"
            namespace go my.potato
            service PotatoService {
                void explodePotato(1:string reason) (this_is_invalid)
            }
        "#;

    let services = parse_thrift(thrift_content).unwrap();
    let service = services.get("my.potato.PotatoService").unwrap();
    let method = service.methods.get("explodePotato").unwrap();

    assert_eq!(method.return_type, "void");
    assert!(method.annotations.is_empty());
}

#[test]
fn test_parse_thrift_no_annotations() {
    let thrift_content = r#"
            namespace go my.potato
            service PotatoService {
                i32 boilPotato(1:i32 duration)
            }
        "#;

    let services = parse_thrift(thrift_content).unwrap();
    let service = services.get("my.potato.PotatoService").unwrap();
    let method = service.methods.get("boilPotato").unwrap();

    assert_eq!(method.return_type, "i32");
    assert!(method.annotations.is_empty());
}

#[test]
fn test_parse_thrift_missing_namespace() {
    let thrift_content = r#"
            service PotatoService {
                bool isHot() (temperature="high")
            }
        "#;

    let result = parse_thrift(thrift_content);
    assert!(result.is_err());
    assert_eq!(result.unwrap_err(), "Namespace not found");
}

#[test]
fn empty_description_is_refused() {
    assert_eq!(parse_thrift("").unwrap_err(), "Namespace not found");
}

#[test]
fn description_without_services_is_accepted() {
    assert!(parse_thrift("namespace go a.b").unwrap().is_empty());
}

#[test]
fn comment_at_the_end_is_cut_off() {
    let services = parse_thrift(
        "namespace go a\nservice S { i32 f() } // service T { i32 g() }",
    )
    .unwrap();
    assert!(services.get("a.S").is_some());
    assert!(services.get("a.T").is_none());
}

#[test]
fn namespace_in_a_final_comment_does_not_count() {
    assert!(parse_thrift("service S { i32 f() } // namespace go a").is_err());
}

#[test]
fn comment_in_an_earlier_line_is_cut_off() {
    let services =
        parse_thrift("namespace go a\n// service T { i32 g() }\nservice S { i32 f() }\n").unwrap();
    assert!(services.get("a.S").is_some());
    assert!(services.get("a.T").is_none());
}

#[test]
fn commented_method_does_not_count() {
    let services =
        parse_thrift("namespace go p\nservice S {\n// void a()\nvoid b()\n}\n").unwrap();
    let service = services.get("p.S").unwrap();
    assert!(service.methods.get("a").is_none());
    assert_eq!(service.methods.get("b").unwrap().return_type, "void");
}

#[test]
fn each_line_loses_its_own_comment() {
    let services = parse_thrift(
        "// namespace go x\r\nnamespace go a /// one // two\n\
         service S { // }\n\
         i32 f() (scope=\"s\") //\n\
         // i32 g() \u{e9}\n\
         i64 h() / / i32 k()\n\
         } // service T { }",
    )
    .unwrap();
    assert!(services.get("a.T").is_none());
    let methods = &services.get("a.S").unwrap().methods;
    assert_eq!(
        methods.get("f").unwrap().annotations.get("scope"),
        Some(&"s".to_string())
    );
    assert!(methods.get("g").is_none());
    assert_eq!(methods.get("h").unwrap().return_type, "i64");
    assert!(methods.get("k").is_some());
}

#[test]
fn slashes_in_a_literal_begin_no_comment() {
    let services = parse_thrift(
        "namespace go a\n\
         service S {\n\
         i32 f() (link=\"http://x\" role=\"r\") // void g()\n\
         i32 h() (link='http://y')\n\
         i32 k() (link=\"two\n//lines\")\n\
         i32 m() (scope=\"http://a\") // \" unclosed\n\
         // i32 n() ' unclosed\n\
         i32 p()\n\
         }",
    )
    .unwrap();
    let methods = &services.get("a.S").unwrap().methods;
    let f = methods.get("f").unwrap();
    assert_eq!(f.annotations.get("link"), Some(&"http://x".to_string()));
    assert_eq!(f.annotations.get("role"), Some(&"r".to_string()));
    assert!(methods.get("g").is_none());
    assert!(methods.get("h").unwrap().annotations.is_empty());
    assert_eq!(
        methods.get("k").unwrap().annotations.get("link"),
        Some(&"two\n//lines".to_string())
    );
    assert_eq!(
        methods.get("m").unwrap().annotations.get("scope"),
        Some(&"http://a".to_string())
    );
    assert!(methods.get("n").is_none());
    assert!(methods.get("p").is_some());
}

#[test]
fn unclosed_quote_begins_no_literal() {
    let services = parse_thrift(
        "namespace go a /* don't */\nservice S { i32 f() } // service T { it's }\n\
         service U { i32 g() \" } // service V { i32 h() }",
    )
    .unwrap();
    assert!(services.get("a.S").is_some());
    assert!(services.get("a.T").is_none());
    assert!(services.get("a.U").is_some());
    assert!(services.get("a.V").is_none());
}

#[test]
fn final_line_keeps_its_literal() {
    let services =
        parse_thrift("namespace go a service S { void f() (scope=\"http://a\") }").unwrap();
    let method = services.get("a.S").unwrap().methods.get("f").unwrap();
    assert_eq!(method.annotations.get("scope"), Some(&"http://a".to_string()));
}

#[test]
fn first_namespace_counts() {
    let services =
        parse_thrift("namespace go a.b namespace java c.d service S { i32 f() }").unwrap();
    assert!(services.get("a.b.S").is_some());
    assert!(services.get("c.d.S").is_none());
}

#[test]
fn later_definitions_count() {
    let services = parse_thrift(
        r#"namespace go a
        service S { i32 f() (scope="one" scope="two") i64 g() }
        service S { i32 f() (scope="three") i64 f() (scope="four") }"#,
    )
    .unwrap();
    let service = services.get("a.S").unwrap();
    assert!(service.methods.get("g").is_none());
    let method = service.methods.get("f").unwrap();
    assert_eq!(method.return_type, "i64");
    assert_eq!(method.annotations.get("scope"), Some(&"four".to_string()));
}

#[test]
fn later_annotation_counts() {
    let annotations = parse_annotations(r#"scope="one", other="x", scope = "two""#);
    assert_eq!(annotations.get("scope"), Some(&"two".to_string()));
    assert_eq!(annotations.get("other"), Some(&"x".to_string()));
}

#[test]
fn annotations_may_hold_anything_but_quotes() {
    let annotations = parse_annotations("a=\"\" \u{e9}t\u{e9}=\"x = y\nz\" b=1 c='d'");
    assert_eq!(annotations.get("a"), Some(&"".to_string()));
    assert_eq!(annotations.get("\u{e9}t\u{e9}"), Some(&"x = y\nz".to_string()));
    assert!(annotations.get("b").is_none());
    assert!(annotations.get("c").is_none());
}

#[test]
fn rendered_annotations_are_read_back() {
    let annotations = parse_annotations(r#"a_1="x // y" B="" a_1="= 'z'" 9="(b)""#);
    assert_eq!(annotations.get("a_1"), Some(&"= 'z'".to_string()));
    assert_eq!(annotations.get("B"), Some(&"".to_string()));
    assert_eq!(annotations.get("9"), Some(&"(b)".to_string()));
    assert!(annotations.get("x").is_none());
}

#[test]
fn joined_annotations_prefer_the_later() {
    let joined = parse_annotations(r#"a="1" b="2" =? "b" b	=
"3" -c="4" d e="5" f=""#);
    assert_eq!(joined.get("a"), Some(&"1".to_string()));
    assert_eq!(joined.get("b"), Some(&"3".to_string()));
    assert_eq!(joined.get("c"), Some(&"4".to_string()));
    assert!(joined.get("d").is_none());
    assert_eq!(joined.get("e"), Some(&"5".to_string()));
    assert!(joined.get("f").is_none());
}

#[test]
fn text_without_pairs_has_no_annotations() {
    for text in ["", "a", "a=", "a=b", "=\"x\"", "a=\"x", "-=\"x\"", "a b\"=\"", "a==\"x\""] {
        assert!(parse_annotations(text).is_empty(), "{}", text);
    }
}

#[test]
fn key_is_all_of_the_word_in_front() {
    let annotations = parse_annotations("x-y\u{a0}=\u{2003}\"v\" \u{4e2d}\u{6587}1=\"w\" \u{2014}q=\"u\"");
    assert_eq!(annotations.get("y"), Some(&"v".to_string()));
    assert!(annotations.get("x-y").is_none());
    assert_eq!(annotations.get("\u{4e2d}\u{6587}1"), Some(&"w".to_string()));
    assert_eq!(annotations.get("q"), Some(&"u".to_string()));
}

#[test]
fn collected_annotations_skip_incomplete_matches() {
    let found = vec![
        vec![Some("a".to_string()), Some("1".to_string())],
        vec![None, Some("2".to_string())],
        vec![Some("b".to_string()), None],
        vec![Some("a".to_string()), Some("3".to_string())],
    ];
    let annotations = collect_annotations(&found);
    assert_eq!(annotations.get("a"), Some(&"3".to_string()));
    assert!(annotations.get("b").is_none());
}

#[test]
fn methods_need_a_return_type_and_a_name() {
    let mut methods = StringMap::new();
    assert_eq!(
        add_method(&mut methods, None, Some("f".to_string()), StringMap::new()),
        Err("Return type not found".to_string())
    );
    assert_eq!(
        add_method(&mut methods, None, None, StringMap::new()),
        Err("Return type not found".to_string())
    );
    assert_eq!(
        add_method(&mut methods, Some("i32".to_string()), None, StringMap::new()),
        Err("Method name not found".to_string())
    );
    assert!(methods.is_empty());
    assert_eq!(
        add_method(
            &mut methods,
            Some("i32".to_string()),
            Some("f".to_string()),
            StringMap::new()
        ),
        Ok(())
    );
    assert_eq!(methods.get("f").unwrap().return_type, "i32");
}

#[test]
fn services_are_added_under_their_qualified_name() {
    let mut services = StringMap::new();
    add_service(&mut services, "a.b", "S", StringMap::new());
    assert!(services.get("a.b.S").unwrap().methods.is_empty());
    assert!(services.get("S").is_none());
}

fn some(text: &str) -> Option<String> {
    Some(text.to_string())
}

fn one_annotation(key: &str, value: &str) -> StringMap<String> {
    let mut annotations = StringMap::new();
    annotations.insert(key.to_string(), value.to_string());
    annotations
}

#[test]
fn methods_are_collected_from_matches() {
    let found = vec![
        vec![some("i32"), some("f"), some("read")],
        vec![some("void"), some("g"), None],
        vec![some("i64"), some("f"), None],
    ];
    let annotations = vec![
        one_annotation("scope", "one"),
        one_annotation("scope", "two"),
        one_annotation("role", "three"),
    ];
    let methods = collect_methods(&found, annotations).unwrap();
    let f = methods.get("f").unwrap();
    assert_eq!(f.return_type, "i64");
    assert_eq!(f.annotations.get("role"), some("three").as_ref());
    assert!(f.annotations.get("scope").is_none());
    let g = methods.get("g").unwrap();
    assert_eq!(g.return_type, "void");
    assert_eq!(g.annotations.get("scope"), some("two").as_ref());
    assert!(collect_methods(&vec![], vec![]).unwrap().is_empty());
}

#[test]
fn first_incomplete_match_spoils_the_methods() {
    let found = vec![
        vec![some("i32"), some("f"), None],
        vec![some("i32"), None, None],
        vec![None, some("h"), None],
    ];
    let annotations = vec![StringMap::new(), StringMap::new(), StringMap::new()];
    assert_eq!(
        collect_methods(&found, annotations).unwrap_err(),
        "Method name not found"
    );
    assert_eq!(
        collect_methods(&vec![vec![None, None, None]], vec![StringMap::new()]).unwrap_err(),
        "Return type not found"
    );
}

#[test]
fn services_are_collected_from_matches() {
    let found = vec![
        vec![some("S"), some("i32 f()")],
        vec![some("T"), some("")],
        vec![some("S"), some("")],
    ];
    let mut methods = StringMap::new();
    assert!(add_method(&mut methods, some("i32"), some("f"), StringMap::new()).is_ok());
    let mut later = StringMap::new();
    assert!(add_method(&mut later, some("i64"), some("g"), StringMap::new()).is_ok());
    let services =
        collect_services("a.b", &found, vec![Ok(methods), Ok(StringMap::new()), Ok(later)])
            .unwrap();
    assert!(services.get("a.b.T").unwrap().methods.is_empty());
    let service = services.get("a.b.S").unwrap();
    assert!(service.methods.get("f").is_none());
    assert_eq!(service.methods.get("g").unwrap().return_type, "i64");
    assert!(services.get("S").is_none());
    assert!(collect_services("a", &vec![], vec![]).unwrap().is_empty());
}

#[test]
fn first_incomplete_match_spoils_the_services() {
    assert_eq!(
        collect_services(
            "a",
            &vec![vec![None, None], vec![some("S"), None]],
            vec![Err("unread".to_string()), Ok(StringMap::new())]
        )
        .unwrap_err(),
        "Service name not found"
    );
    assert_eq!(
        collect_services(
            "a",
            &vec![vec![some("S"), None]],
            vec![Err("unread".to_string())]
        )
        .unwrap_err(),
        "Service body not found"
    );
    assert_eq!(
        collect_services(
            "a",
            &vec![vec![some("R"), some("")], vec![some("S"), some("?")], vec![None, None]],
            vec![Ok(StringMap::new()), Err("unread".to_string()), Ok(StringMap::new())]
        )
        .unwrap_err(),
        "unread"
    );
}

#[test]
fn dictionary_holds_the_latest_value() {
    let mut map: StringMap<String> = StringMap::new();
    assert!(map.is_empty());
    map.insert("a".to_string(), "1".to_string());
    map.insert("b".to_string(), "2".to_string());
    map.insert("a".to_string(), "3".to_string());
    assert!(!map.is_empty());
    assert_eq!(map.get("a"), Some(&"3".to_string()));
    assert_eq!(map.get("b"), Some(&"2".to_string()));
    assert_eq!(map.get("c"), None);
}
