use horizon::swipc::diagnostics::{Diagnostic, LabelStyle, Severity};
use horizon::swipc::model::IpcFileItem;
use horizon::swipc::naming::{case_name, check_naming, uppercase_first_letter, NameCase};
use horizon::swipc::parser::parse_items_from_source;

fn items(source: &str) -> Vec<IpcFileItem> {
    match parse_items_from_source(0, source) {
        Ok(items) => items,
        Err(_) => panic!("the source should parse"),
    }
}

fn messages(ds: &[Diagnostic]) -> Vec<String> {
    ds.iter().map(|d| String::from_utf8(d.message.clone()).unwrap()).collect()
}

fn naming_messages(item: &IpcFileItem) -> Vec<String> {
    match item.check_naming() {
        Ok(()) => Vec::new(),
        Err(ds) => {
            for d in ds.iter() {
                assert_eq!(d.severity, Severity::Warning);
                assert_eq!(d.labels.len(), 1);
                assert_eq!(d.labels[0].style, LabelStyle::Primary);
            }
            messages(&ds)
        }
    }
}

#[test]
fn case_names() {
    assert_eq!(case_name(NameCase::Camel), "camelCase");
    assert_eq!(case_name(NameCase::Pascal), "PascalCase");
    assert_eq!(case_name(NameCase::Snake), "snake_case");
    assert_eq!(case_name(NameCase::ScreamingSnake), "SCREAMING_SNAKE_CASE");
}

#[test]
fn first_letter_upper_cased() {
    assert_eq!(uppercase_first_letter(b"struct field"), b"Struct field".to_vec());
    assert_eq!(uppercase_first_letter(b"Enum"), b"Enum".to_vec());
    assert_eq!(uppercase_first_letter(b""), b"".to_vec());
}

#[test]
fn plain_name_in_case_is_accepted() {
    let span = horizon::swipc::diagnostics::Span::new(0, 1, 2);
    assert!(check_naming(b"some_field", "struct field", NameCase::Snake, span).is_ok());
    assert!(check_naming(b"SomeArm", "enum arm", NameCase::Pascal, span).is_ok());
}

#[test]
fn plain_name_out_of_case_is_reported() {
    let span = horizon::swipc::diagnostics::Span::new(0, 3, 9);
    let ds = check_naming(b"someField", "struct field", NameCase::Snake, span).unwrap_err();
    assert_eq!(
        messages(&ds),
        vec!["Struct field name `someField` should be in snake_case, like `some_field`".to_string()]
    );
    assert_eq!(ds[0].labels[0].span, span);
}

#[test]
fn struct_names_reported_in_order() {
    let file = items(
        r"
        struct Foo::bar_baz {
            u8 someField;
            u8 good_field;
            u8 OtherField;
        };",
    );
    assert_eq!(
        naming_messages(&file[0]),
        vec![
            "Struct name `Foo::bar_baz` should have namespaces in camel_case and the identifier in PascalCase, like `foo::BarBaz`".to_string(),
            "Struct field name `someField` should be in snake_case, like `some_field`".to_string(),
            "Struct field name `OtherField` should be in snake_case, like `other_field`".to_string(),
        ]
    );
}

#[test]
fn namespace_only_or_identifier_only() {
    let file = items(
        r"
        type Ns::Good = u8;
        type ns::not_good = u8;
        type ns::Good = u8;",
    );
    assert_eq!(
        naming_messages(&file[0]),
        vec!["Type alias name `Ns::Good` should have namespaces in camel_case, like `ns::Good`".to_string()]
    );
    assert_eq!(
        naming_messages(&file[1]),
        vec!["Type alias name `ns::not_good` should have the identifier in PascalCase, like `ns::NotGood`".to_string()]
    );
    assert!(file[2].check_naming().is_ok());
}

#[test]
fn interface_commands_and_arguments() {
    let file = items(
        r"
        interface ns::Foo {
            [0] do_thing(u32 maxHandles, u8, u8 fine_name);
            [1] GoodName(u8 BadName);
        }",
    );
    assert_eq!(
        naming_messages(&file[0]),
        vec![
            "Command name `do_thing` should be in PascalCase, like `DoThing`".to_string(),
            "Argument name `maxHandles` should be in snake_case, like `max_handles`".to_string(),
            "Argument name `BadName` should be in snake_case, like `bad_name`".to_string(),
        ]
    );
}

#[test]
fn enum_and_bitflags_arms() {
    let file = items(
        r"
        enum ns::Color : u8 {
            red = 0,
            Green = 1,
        };
        bitflags ns::Flags : u32 {
            First = 1,
            second_flag = 2,
        };",
    );
    assert_eq!(
        naming_messages(&file[0]),
        vec!["Enum arm name `red` should be in PascalCase, like `Red`".to_string()]
    );
    assert_eq!(
        naming_messages(&file[1]),
        vec!["Bitflags arm name `second_flag` should be in PascalCase, like `SecondFlag`".to_string()]
    );
}
