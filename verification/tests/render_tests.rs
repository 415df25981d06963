use cdecl::config::{Config, DeclarationType, FunctionConfig, Language, Layout, PointerConfig, RenameRule};
use cdecl::ir::{
    AnnotationSet, Cfg, Documentation, FuncPtrArg, Function, FunctionArgument, GenericArgument,
    GenericPath, Path, Type,
};
use cdecl::load::{RawParam, RawPattern, RawSignature};
use cdecl::render::{write_field, write_func, write_type};

fn cfg(language: Language, layout: Layout) -> Config {
    Config {
        language,
        line_length: 100,
        function: FunctionConfig {
            args: layout,
            rename_args: RenameRule::Unchanged,
            no_return: None,
        },
        pointer: PointerConfig { non_null_attribute: None, nullable_attribute: None },
    }
}

fn prim(name: &str) -> Type {
    Type::Primitive(name.to_string())
}

fn ptr(inner: Type) -> Type {
    Type::Ptr { ty: Box::new(inner), is_const: false, is_nullable: false, is_ref: false }
}

fn nullable_ptr(inner: Type) -> Type {
    Type::Ptr { ty: Box::new(inner), is_const: false, is_nullable: true, is_ref: false }
}

fn arg(name: &str, ty: Type) -> FunctionArgument {
    FunctionArgument { name: Some(name.to_string()), ty, array_length: None }
}

fn func(name: &str, ret: Type, args: Vec<FunctionArgument>) -> Function {
    Function {
        path: Path::new(name.to_string()),
        self_type_path: None,
        ret,
        args,
        extern_decl: false,
        cfg: None,
        annotations: AnnotationSet { rename_all: None, ptrs_as_arrays: None, deprecated: None },
        documentation: Documentation { lines: Vec::new() },
        never_return: false,
    }
}

#[test]
fn plain_pointer_field() {
    let c = cfg(Language::Cxx, Layout::Horizontal);
    let mut out = String::new();
    write_field(&mut out, &ptr(prim("int")), "x", &c);
    assert_eq!(out, "int *x");
}

#[test]
fn pointer_attributes_swap_with_nullability() {
    let mut c = cfg(Language::C, Layout::Horizontal);
    c.pointer.non_null_attribute = Some("NONNULL".to_string());
    c.pointer.nullable_attribute = Some("NULLABLE".to_string());
    let mut out = String::new();
    write_field(&mut out, &ptr(prim("int")), "x", &c);
    assert_eq!(out, "int *NONNULL x");
    let mut out2 = String::new();
    write_field(&mut out2, &nullable_ptr(prim("int")), "x", &c);
    assert_eq!(out2, "int *NULLABLE x");
}

#[test]
fn attribute_free_dialect_prints_no_attributes() {
    let mut c = cfg(Language::Cython, Layout::Horizontal);
    c.pointer.non_null_attribute = Some("NONNULL".to_string());
    let mut out = String::new();
    write_field(&mut out, &ptr(prim("int")), "x", &c);
    assert_eq!(out, "int *x");
}

#[test]
fn pointer_to_array_needs_parentheses() {
    let c = cfg(Language::Cxx, Layout::Horizontal);
    let t = Type::Ptr {
        ty: Box::new(Type::Array(Box::new(prim("int")), "4".to_string())),
        is_const: false,
        is_nullable: true,
        is_ref: false,
    };
    let mut out = String::new();
    write_field(&mut out, &t, "x", &c);
    assert_eq!(out, "int (*x)[4]");
}

#[test]
fn array_of_pointers_needs_no_parentheses() {
    let c = cfg(Language::Cxx, Layout::Horizontal);
    let t = Type::Array(Box::new(nullable_ptr(prim("int"))), "4".to_string());
    let mut out = String::new();
    write_field(&mut out, &t, "x", &c);
    assert_eq!(out, "int *x[4]");
}

#[test]
fn function_pointer_identifier_sits_in_a_group() {
    let c = cfg(Language::C, Layout::Horizontal);
    let t = Type::FuncPtr {
        ret: Box::new(prim("int")),
        args: vec![FuncPtrArg { name: Some("a".to_string()), ty: prim("int") }],
        never_return: false,
    };
    let mut out = String::new();
    write_field(&mut out, &t, "f", &c);
    assert_eq!(out, "int (*f)(int a)");
}

#[test]
fn nested_function_pointer_keeps_grouping() {
    let c = cfg(Language::C, Layout::Horizontal);
    let t = Type::FuncPtr { ret: Box::new(prim("void")), args: vec![], never_return: false };
    let mut out = String::new();
    write_field(&mut out, &t, "f", &c);
    assert_eq!(out, "void (*f)(void)");
}

#[test]
fn empty_args_render_void_only_in_strict_c() {
    let f = func("go", prim("void"), vec![]);
    let mut out = String::new();
    write_func(&mut out, &f, Layout::Horizontal, &cfg(Language::C, Layout::Horizontal));
    assert_eq!(out, "void go(void)");
    let mut out2 = String::new();
    write_func(&mut out2, &f, Layout::Horizontal, &cfg(Language::Cxx, Layout::Horizontal));
    assert_eq!(out2, "void go()");
    let mut out3 = String::new();
    write_func(&mut out3, &f, Layout::Horizontal, &cfg(Language::Cython, Layout::Horizontal));
    assert_eq!(out3, "void go()");
}

#[test]
fn generic_arguments_render_in_angle_brackets() {
    let c = cfg(Language::Cxx, Layout::Horizontal);
    let t = Type::Path(GenericPath {
        name: "Pair".to_string(),
        generics: vec![
            GenericArgument::Type(prim("int")),
            GenericArgument::Const("8".to_string()),
        ],
        ctype: None,
    });
    let mut out = String::new();
    write_type(&mut out, &t, &c);
    assert_eq!(out, "Pair<int, 8>");
}

#[test]
fn classification_tag_prints_before_the_name() {
    let c = cfg(Language::C, Layout::Horizontal);
    let t = Type::Path(GenericPath {
        name: "Foo".to_string(),
        generics: vec![],
        ctype: Some(DeclarationType::Struct),
    });
    let mut out = String::new();
    write_type(&mut out, &t, &c);
    assert_eq!(out, "struct Foo");
    let mut out2 = String::new();
    write_type(&mut out2, &t, &cfg(Language::Cython, Layout::Horizontal));
    assert_eq!(out2, "Foo");
}

#[test]
fn vertical_layout_aligns_arguments() {
    let c = cfg(Language::C, Layout::Horizontal);
    let f = func("go", prim("void"), vec![arg("a", prim("int")), arg("b", prim("int"))]);
    let mut out = String::new();
    write_func(&mut out, &f, Layout::Vertical, &c);
    assert_eq!(out, "void go(int a,\n        int b)");
}

#[test]
fn auto_layout_commits_horizontal_when_it_fits() {
    let c = cfg(Language::C, Layout::Horizontal);
    let f = func("go", prim("void"), vec![arg("a", prim("int")), arg("b", prim("int"))]);
    let mut horizontal = String::new();
    write_func(&mut horizontal, &f, Layout::Horizontal, &c);
    let mut auto_out = String::new();
    write_func(&mut auto_out, &f, Layout::Auto, &c);
    assert_eq!(auto_out, horizontal);
    assert_eq!(auto_out, "void go(int a, int b)");
}

#[test]
fn auto_layout_falls_back_to_vertical_with_no_partial_output() {
    let mut c = cfg(Language::C, Layout::Horizontal);
    c.line_length = 10;
    let f = func("go", prim("void"), vec![arg("a", prim("int")), arg("b", prim("int"))]);
    let mut vertical = String::new();
    write_func(&mut vertical, &f, Layout::Vertical, &c);
    let mut auto_out = String::new();
    write_func(&mut auto_out, &f, Layout::Auto, &c);
    assert_eq!(auto_out, vertical);
    assert!(!auto_out.contains("int a, int b"));
}

#[test]
fn never_return_attribute_prints_after_the_list() {
    let mut c = cfg(Language::C, Layout::Horizontal);
    c.function.no_return = Some("__attribute__((noreturn))".to_string());
    let mut f = func("die", prim("void"), vec![]);
    f.never_return = true;
    let mut out = String::new();
    write_func(&mut out, &f, Layout::Horizontal, &c);
    assert_eq!(out, "void die(void) __attribute__((noreturn))");
}

#[test]
fn ptrs_as_arrays_annotation_renders_c_array() {
    let c = cfg(Language::C, Layout::Horizontal);
    let mut f = func(
        "fill",
        prim("void"),
        vec![arg("buf", nullable_ptr(prim("int"))), arg("n", prim("int"))],
    );
    f.annotations.ptrs_as_arrays = Some(vec!["(buf; 16)".to_string()]);
    let warnings = f.rename_for_config(&c);
    assert!(warnings.is_empty());
    let mut out = String::new();
    write_func(&mut out, &f, Layout::Horizontal, &c);
    assert_eq!(out, "void fill(int buf[16], int n)");
}

#[test]
fn malformed_ptrs_as_arrays_entry_warns_and_is_skipped() {
    let c = cfg(Language::C, Layout::Horizontal);
    let mut f = func("fill", prim("void"), vec![arg("buf", nullable_ptr(prim("int")))]);
    f.annotations.ptrs_as_arrays = Some(vec!["(buf)".to_string()]);
    let warnings = f.rename_for_config(&c);
    assert_eq!(warnings, vec!["(buf)".to_string()]);
    let mut out = String::new();
    write_func(&mut out, &f, Layout::Horizontal, &c);
    assert_eq!(out, "void fill(int *buf)");
}

#[test]
fn uppercasing_rule_renames_every_argument() {
    let mut c = cfg(Language::C, Layout::Horizontal);
    c.function.rename_args = RenameRule::UpperCase;
    let mut f = func("go", prim("void"), vec![arg("a", prim("int")), arg("b", prim("int"))]);
    f.rename_for_config(&c);
    let mut out = String::new();
    write_func(&mut out, &f, Layout::Horizontal, &c);
    assert_eq!(out, "void go(int A, int B)");
}

#[test]
fn per_function_rule_overrides_the_default() {
    let c = cfg(Language::C, Layout::Horizontal);
    let mut f = func("go", prim("void"), vec![arg("A", prim("int"))]);
    f.annotations.rename_all = Some(RenameRule::LowerCase);
    f.rename_for_config(&c);
    assert_eq!(f.args[0].name.as_deref(), Some("a"));
}

#[test]
fn rename_clears_every_array_length_override() {
    let mut c = cfg(Language::C, Layout::Horizontal);
    c.function.rename_args = RenameRule::LowerCase;
    let mut f = func("go", prim("void"), vec![arg("BUF", nullable_ptr(prim("int")))]);
    f.args[0].array_length = Some("16".to_string());
    f.rename_for_config(&c);
    assert_eq!(f.args[0].name.as_deref(), Some("buf"));
    assert_eq!(f.args[0].array_length, None);
}

#[test]
fn reserved_keyword_argument_is_escaped() {
    let c = cfg(Language::C, Layout::Horizontal);
    let mut f = func("go", prim("void"), vec![arg("while", prim("int"))]);
    f.rename_for_config(&c);
    let mut out = String::new();
    write_func(&mut out, &f, Layout::Horizontal, &c);
    assert_eq!(out, "void go(int while_)");
}

#[test]
fn by_reference_receiver_loads_as_const_pointer() {
    let sig = RawSignature {
        inputs: vec![RawParam::Receiver { reference: true, mutable: false, ty: None }],
        variadic: false,
        ret: prim("void"),
        never_return: false,
    };
    let foo = Path::new("Foo".to_string());
    let f = Function::load(
        Path::new("Foo_go".to_string()),
        Some(&foo),
        &sig,
        false,
        AnnotationSet { rename_all: None, ptrs_as_arrays: None, deprecated: None },
        Documentation { lines: Vec::new() },
        None,
        None,
    )
    .unwrap();
    let c = cfg(Language::C, Layout::Horizontal);
    let mut out = String::new();
    write_func(&mut out, &f, Layout::Horizontal, &c);
    assert_eq!(out, "void Foo_go(const Foo *self)");
}

#[test]
fn by_value_custom_receiver_loads_bare() {
    let sig = RawSignature {
        inputs: vec![RawParam::Receiver {
            reference: false,
            mutable: false,
            ty: Some(Type::Path(GenericPath {
                name: "Bar".to_string(),
                generics: vec![],
                ctype: None,
            })),
        }],
        variadic: false,
        ret: prim("void"),
        never_return: false,
    };
    let foo = Path::new("Foo".to_string());
    let f = Function::load(
        Path::new("Foo_go".to_string()),
        Some(&foo),
        &sig,
        false,
        AnnotationSet { rename_all: None, ptrs_as_arrays: None, deprecated: None },
        Documentation { lines: Vec::new() },
        None,
        None,
    )
    .unwrap();
    let c = cfg(Language::C, Layout::Horizontal);
    let mut out = String::new();
    write_func(&mut out, &f, Layout::Horizontal, &c);
    assert_eq!(out, "void Foo_go(Bar self)");
}

#[test]
fn array_parameter_is_rejected() {
    let sig = RawSignature {
        inputs: vec![RawParam::Typed {
            pattern: RawPattern::Ident("xs".to_string()),
            ty: Some(Type::Array(Box::new(prim("int")), "4".to_string())),
        }],
        variadic: false,
        ret: prim("void"),
        never_return: false,
    };
    let r = Function::load(
        Path::new("go".to_string()),
        None,
        &sig,
        false,
        AnnotationSet { rename_all: None, ptrs_as_arrays: None, deprecated: None },
        Documentation { lines: Vec::new() },
        None,
        None,
    );
    assert_eq!(r.err().as_deref(), Some("Array as function arguments are not supported"));
}

#[test]
fn unsupported_pattern_is_rejected() {
    let sig = RawSignature {
        inputs: vec![RawParam::Typed { pattern: RawPattern::Unsupported, ty: Some(prim("int")) }],
        variadic: false,
        ret: prim("void"),
        never_return: false,
    };
    let r = Function::load(
        Path::new("go".to_string()),
        None,
        &sig,
        false,
        AnnotationSet { rename_all: None, ptrs_as_arrays: None, deprecated: None },
        Documentation { lines: Vec::new() },
        None,
        None,
    );
    assert_eq!(r.err().as_deref(), Some("Parameter has an unsupported argument name"));
}

#[test]
fn variadic_marker_appends_nameless_va_list() {
    let sig = RawSignature {
        inputs: vec![RawParam::Typed {
            pattern: RawPattern::Ident("fmt".to_string()),
            ty: Some(nullable_ptr(prim("char"))),
        }],
        variadic: true,
        ret: prim("void"),
        never_return: false,
    };
    let f = Function::load(
        Path::new("logv".to_string()),
        None,
        &sig,
        false,
        AnnotationSet { rename_all: None, ptrs_as_arrays: None, deprecated: None },
        Documentation { lines: Vec::new() },
        None,
        None,
    )
    .unwrap();
    assert_eq!(f.args.len(), 2);
    assert_eq!(f.args[1].name, None);
    let c = cfg(Language::C, Layout::Horizontal);
    let mut out = String::new();
    write_func(&mut out, &f, Layout::Horizontal, &c);
    assert_eq!(out, "void logv(char *fmt, va_list)");
}

#[test]
fn self_placeholder_is_rewritten_to_the_receiver_path() {
    let sig = RawSignature {
        inputs: vec![RawParam::Typed {
            pattern: RawPattern::Ident("other".to_string()),
            ty: Some(nullable_ptr(Type::Path(GenericPath {
                name: "Self".to_string(),
                generics: vec![],
                ctype: None,
            }))),
        }],
        variadic: false,
        ret: prim("void"),
        never_return: false,
    };
    let foo = Path::new("Foo".to_string());
    let f = Function::load(
        Path::new("Foo_go".to_string()),
        Some(&foo),
        &sig,
        false,
        AnnotationSet { rename_all: None, ptrs_as_arrays: None, deprecated: None },
        Documentation { lines: Vec::new() },
        None,
        None,
    )
    .unwrap();
    let c = cfg(Language::C, Layout::Horizontal);
    let mut out = String::new();
    write_func(&mut out, &f, Layout::Horizontal, &c);
    assert_eq!(out, "void Foo_go(Foo *other)");
}

#[test]
fn swift_name_joins_type_method_and_argument_names() {
    let mut f = func("Foo_bar", prim("void"), vec![arg("a", prim("int"))]);
    f.self_type_path = Some(Path::new("Foo".to_string()));
    let c = cfg(Language::C, Layout::Horizontal);
    assert_eq!(f.swift_name(&c), Some("Foo.bar(a:)".to_string()));
}

#[test]
fn swift_name_keeps_the_bare_path_when_the_prefix_differs() {
    let mut f = func("other_bar", prim("void"), vec![arg("a", prim("int"))]);
    f.self_type_path = Some(Path::new("Foo".to_string()));
    let c = cfg(Language::C, Layout::Horizontal);
    assert_eq!(f.swift_name(&c), Some("other_bar".to_string()));
}

#[test]
fn swift_name_needs_every_argument_named() {
    let mut f = func("Foo_bar", prim("void"), vec![arg("a", prim("int"))]);
    f.args.push(FunctionArgument { name: None, ty: prim("int"), array_length: None });
    f.self_type_path = Some(Path::new("Foo".to_string()));
    let c = cfg(Language::C, Layout::Horizontal);
    assert_eq!(f.swift_name(&c), None);
    assert_eq!(f.swift_name(&cfg(Language::Cython, Layout::Horizontal)), None);
}

#[test]
fn const_pointee_prints_const_specifier() {
    let c = cfg(Language::Cxx, Layout::Horizontal);
    let t = Type::Ptr {
        ty: Box::new(prim("char")),
        is_const: true,
        is_nullable: true,
        is_ref: false,
    };
    let mut out = String::new();
    write_field(&mut out, &t, "s", &c);
    assert_eq!(out, "const char *s");
}

#[test]
fn reference_flavored_pointer_prints_ampersand() {
    let mut c = cfg(Language::Cxx, Layout::Horizontal);
    c.pointer.non_null_attribute = Some("NN".to_string());
    let t = Type::Ptr {
        ty: Box::new(prim("int")),
        is_const: false,
        is_nullable: false,
        is_ref: true,
    };
    let mut out = String::new();
    write_field(&mut out, &t, "r", &c);
    assert_eq!(out, "int &r");
}

#[test]
fn reference_flavored_pointer_never_prints_an_attribute() {
    let mut c = cfg(Language::Cxx, Layout::Horizontal);
    c.pointer.non_null_attribute = Some("NN".to_string());
    c.pointer.nullable_attribute = Some("NU".to_string());
    let t = Type::Ptr {
        ty: Box::new(prim("int")),
        is_const: false,
        is_nullable: true,
        is_ref: true,
    };
    let mut out = String::new();
    write_field(&mut out, &t, "r", &c);
    assert_eq!(out, "int &r");
}

#[test]
fn cfg_append_combines_guards() {
    let a = Cfg { clauses: vec!["unix".to_string()] };
    let b = Cfg { clauses: vec!["feature_x".to_string()] };
    let both = Cfg::append(Some(&a), Some(b)).unwrap();
    assert_eq!(both.clauses, vec!["unix".to_string(), "feature_x".to_string()]);
    assert!(Cfg::append(None, None).is_none());
}
