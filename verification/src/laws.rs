use vstd::prelude::*;

use crate::cdecl::CDeclaratorV;
use crate::cdecl::CFuncArgV;
use crate::cdecl::spec_from_func;
use crate::cdecl::spec_from_type;
use crate::cdecl::spec_fp_args;
use crate::config::Config;
use crate::config::Layout;
use crate::function::escaped;
use crate::function::is_reserved_spec;
use crate::ir::FuncPtrArgV;
use crate::ir::FunctionArgumentV;
use crate::ir::TypeV;
use crate::render::ptr_left_tok;
use crate::render::render_args;
use crate::render::render_args_h;
use crate::render::render_args_v;
use crate::render::render_cdecl;
use crate::text::col_after;
use crate::text::max_line_from;

verus! {

/// A type built purely from pointer and array wrappers around a primitive.
pub open spec fn is_wrapper_chain(t: TypeV) -> bool
    decreases t,
{
    match t {
        TypeV::Primitive { .. } => true,
        TypeV::Ptr { inner, .. } => is_wrapper_chain(*inner),
        TypeV::Array { inner, .. } => is_wrapper_chain(*inner),
        _ => false,
    }
}

/// The declarator each wrapper of such a chain must synthesize to, outermost
/// wrapper first, with the context constness threaded as synthesis threads it.
pub open spec fn chain_decls(t: TypeV, is_const: bool) -> Seq<CDeclaratorV>
    decreases t,
{
    match t {
        TypeV::Ptr { inner, is_const: pc, is_nullable, is_ref } => seq![
            CDeclaratorV::Ptr { is_const, is_nullable, is_ref },
        ] + chain_decls(*inner, pc),
        TypeV::Array { inner, len } => seq![CDeclaratorV::Array { len }] + chain_decls(
            *inner,
            is_const,
        ),
        _ => Seq::empty(),
    }
}

/// How many wrappers the chain nests.
pub open spec fn chain_len(t: TypeV) -> nat
    decreases t,
{
    match t {
        TypeV::Ptr { inner, .. } => 1 + chain_len(*inner),
        TypeV::Array { inner, .. } => 1 + chain_len(*inner),
        _ => 0,
    }
}

/// For a type built purely from nested pointer and array wrappers around a
/// primitive, synthesis yields exactly one declarator per wrapper, in wrapper
/// order: nesting order and count are preserved exactly.
pub proof fn lemma_chain_synthesis(t: TypeV, is_const: bool, fl: Layout)
    requires
        is_wrapper_chain(t),
    ensures
        spec_from_type(t, is_const, fl).declarators == chain_decls(t, is_const),
        spec_from_type(t, is_const, fl).declarators.len() == chain_len(t),
    decreases t,
{
    match t {
        TypeV::Primitive { .. } => {
            assert(spec_from_type(t, is_const, fl).declarators =~= chain_decls(t, is_const));
        },
        TypeV::Ptr { inner, is_const: pc, is_nullable, is_ref } => {
            lemma_chain_synthesis(*inner, pc, fl);
            assert(spec_from_type(t, is_const, fl).declarators =~= chain_decls(t, is_const));
        },
        TypeV::Array { inner, len } => {
            lemma_chain_synthesis(*inner, is_const, fl);
            assert(spec_from_type(t, is_const, fl).declarators =~= chain_decls(t, is_const));
        },
        _ => {},
    }
}

/// The attribute a pointer prints, by its nullability: a non-nullable,
/// non-reference pointer prints the non-null attribute and never the nullable
/// one; flipping nullability swaps which attribute appears. The whole rendered
/// text of a pointer-to-primitive is pinned down exactly.
pub proof fn lemma_ptr_attribute(
    p: Seq<char>,
    pc: bool,
    nullable: bool,
    cfg: Config,
    col: nat,
)
    requires
        !(cfg.language is Cython),
    ensures
        render_cdecl(
            spec_from_type(
                TypeV::Ptr {
                    inner: Box::new(TypeV::Primitive { name: p }),
                    is_const: pc,
                    is_nullable: nullable,
                    is_ref: false,
                },
                false,
                cfg.function.args,
            ),
            Option::None,
            cfg,
            col,
        ) == (if pc {
            "const "@
        } else {
            Seq::<char>::empty()
        }) + p + "*"@ + (if !nullable {
            match cfg.pointer.non_null_attribute {
                Option::Some(a) => a@ + " "@,
                Option::None => Seq::<char>::empty(),
            }
        } else {
            match cfg.pointer.nullable_attribute {
                Option::Some(a) => a@ + " "@,
                Option::None => Seq::<char>::empty(),
            }
        }),
{
    reveal_with_fuel(spec_from_type, 3);
    reveal_with_fuel(crate::render::render_left, 3);
    reveal_with_fuel(crate::render::render_right, 3);
    let t = TypeV::Ptr {
        inner: Box::new(TypeV::Primitive { name: p }),
        is_const: pc,
        is_nullable: nullable,
        is_ref: false,
    };
    let d = spec_from_type(t, false, cfg.function.args);
    assert(d.declarators =~= seq![
        CDeclaratorV::Ptr { is_const: false, is_nullable: nullable, is_ref: false },
    ]);
    assert(d.declarators.drop_first() =~= Seq::<CDeclaratorV>::empty());
    let tok = ptr_left_tok(false, nullable, false, cfg);
    assert(render_cdecl(d, Option::None, cfg, col) =~= ((if pc {
        "const "@
    } else {
        Seq::<char>::empty()
    }) + p) + tok);
    assert(((if pc {
        "const "@
    } else {
        Seq::<char>::empty()
    }) + p) + tok =~= (if pc {
        "const "@
    } else {
        Seq::<char>::empty()
    }) + p + "*"@ + (if !nullable {
        match cfg.pointer.non_null_attribute {
            Option::Some(a) => a@ + " "@,
            Option::None => Seq::<char>::empty(),
        }
    } else {
        match cfg.pointer.nullable_attribute {
            Option::Some(a) => a@ + " "@,
            Option::None => Seq::<char>::empty(),
        }
    }));
}

/// A reference-flavored pointer prints its mark and its own `const` and never
/// a nullability attribute, whatever its nullability flag and whatever
/// attributes are configured.
pub proof fn lemma_ref_pointer_no_attribute(
    is_const: bool,
    is_nullable: bool,
    cfg: Config,
)
    ensures
        ptr_left_tok(is_const, is_nullable, true, cfg) == "&"@ + (if is_const {
            "const "@
        } else {
            Seq::<char>::empty()
        }),
{
    assert(ptr_left_tok(is_const, is_nullable, true, cfg) =~= "&"@ + (if is_const {
        "const "@
    } else {
        Seq::<char>::empty()
    }));
}

/// A function pointer renders its identifier inside a `(*...)` group before
/// the parameter-list suffix, whatever surrounds it prints around that: the
/// whole text of a function-pointer declaration is pinned down exactly.
pub proof fn lemma_funcptr_grouping(
    r: Seq<char>,
    args: Seq<FuncPtrArgV>,
    id: Seq<char>,
    cfg: Config,
    col: nat,
)
    ensures
        ({
            let t = TypeV::FuncPtr {
                ret: Box::new(TypeV::Primitive { name: r }),
                args,
                never_return: false,
            };
            let fl = cfg.function.args;
            let pre = r + " "@ + "("@ + ptr_left_tok(false, true, false, cfg) + id;
            let opened = "("@ + (if args.len() == 0 && cfg.language is C {
                "void"@
            } else {
                Seq::<char>::empty()
            });
            render_cdecl(spec_from_type(t, false, fl), Option::Some(id), cfg, col) == pre + ")"@
                + opened + render_args(
                spec_fp_args(args, fl),
                fl,
                cfg,
                col_after(col, pre + ")"@ + opened),
            ) + ")"@
        }),
{
    reveal_with_fuel(spec_from_type, 3);
    reveal_with_fuel(crate::render::render_left, 4);
    reveal_with_fuel(crate::render::render_right, 4);
    let t = TypeV::FuncPtr {
        ret: Box::new(TypeV::Primitive { name: r }),
        args,
        never_return: false,
    };
    let fl = cfg.function.args;
    let d = spec_from_type(t, false, fl);
    let fd = CDeclaratorV::Func { args: spec_fp_args(args, fl), layout: fl, never_return: false };
    let pd = CDeclaratorV::Ptr { is_const: false, is_nullable: true, is_ref: false };
    assert(d.declarators =~= seq![pd, fd]);
    assert(d.declarators.drop_first() =~= seq![fd]);
    assert(seq![fd].drop_first() =~= Seq::<CDeclaratorV>::empty());
    let pre = r + " "@ + "("@ + ptr_left_tok(false, true, false, cfg) + id;
    let opened = "("@ + (if args.len() == 0 && cfg.language is C {
        "void"@
    } else {
        Seq::<char>::empty()
    });
    let at = render_args(spec_fp_args(args, fl), fl, cfg, col_after(col, pre + ")"@ + opened));
    assert(d.base == Option::Some(
        crate::cdecl::CBaseV {
            is_const: false,
            name: r,
            generic_args: Seq::empty(),
            ctype: Option::None,
        },
    ));
    assert(crate::render::render_base(d.base->Some_0, cfg, col) =~= r);
    assert(crate::render::render_left(seq![pd, fd], false, cfg) =~= "("@ + ptr_left_tok(
        false,
        true,
        false,
        cfg,
    ));
    let lft = crate::render::render_left(d.declarators, false, cfg);
    assert(lft == crate::render::render_left(seq![pd, fd], false, cfg));
    let spre = crate::render::render_base(d.base->Some_0, cfg, col) + " "@ + lft + id;
    assert(spre =~= pre);
    let x = col_after(col, spre);
    assert(x == col_after(col, pre));
    let rt = crate::render::right_tok(fd, true, cfg, x);
    crate::text::lemma_col_after_concat(col, pre, ")"@ + opened);
    assert(pre + ")"@ + opened =~= pre + (")"@ + opened));
    assert(col_after(col_after(col, pre), ")"@ + opened) == col_after(col, pre + ")"@ + opened));
    assert(rt =~= ")"@ + opened + at + ")"@);
    assert(seq![pd, fd].drop_first() =~= seq![fd]);
    assert(seq![fd].drop_first() =~= Seq::<CDeclaratorV>::empty());
    assert(crate::render::right_tok(pd, false, cfg, x) == Seq::<char>::empty());
    assert(col_after(x, Seq::<char>::empty()) == x);
    assert(crate::render::render_right(Seq::<CDeclaratorV>::empty(), true, cfg, col_after(x, rt))
        == Seq::<char>::empty());
    assert(crate::render::render_right(seq![fd], true, cfg, x) =~= rt);
    assert(crate::render::render_right(seq![pd, fd], false, cfg, x) =~= rt);
    assert(render_cdecl(d, Option::Some(id), cfg, col) =~= spre + crate::render::render_right(
        seq![pd, fd],
        false,
        cfg,
        x,
    ));
    assert(render_cdecl(d, Option::Some(id), cfg, col) =~= pre + ")"@ + opened + at + ")"@);
}

/// An empty argument list renders `(void)` under the strict C dialect and `()`
/// under the other two: the whole text of a function with no arguments is
/// pinned down exactly.
pub proof fn lemma_empty_args(
    r: Seq<char>,
    id: Seq<char>,
    layout: Layout,
    cfg: Config,
    col: nat,
)
    ensures
        ({
            let d = spec_from_func(
                TypeV::Primitive { name: r },
                Seq::<FunctionArgumentV>::empty(),
                false,
                layout,
                cfg.function.args,
            );
            render_cdecl(d, Option::Some(id), cfg, col) == r + " "@ + id + "("@ + (
            if cfg.language is C {
                "void"@
            } else {
                Seq::<char>::empty()
            }) + ")"@
        }),
{
    reveal_with_fuel(spec_from_type, 3);
    reveal_with_fuel(crate::render::render_left, 3);
    reveal_with_fuel(crate::render::render_right, 3);
    reveal_with_fuel(render_args_h, 2);
    reveal_with_fuel(render_args_v, 2);
    reveal_with_fuel(crate::cdecl::spec_func_args, 2);
    let d = spec_from_func(
        TypeV::Primitive { name: r },
        Seq::<FunctionArgumentV>::empty(),
        false,
        layout,
        cfg.function.args,
    );
    let fd = CDeclaratorV::Func {
        args: crate::cdecl::spec_func_args(
            Seq::<FunctionArgumentV>::empty(),
            cfg.function.args,
        ),
        layout,
        never_return: false,
    };
    assert(crate::cdecl::spec_func_args(
        Seq::<FunctionArgumentV>::empty(),
        cfg.function.args,
    ) =~= Seq::<CFuncArgV>::empty());
    assert(d.declarators =~= seq![fd]);
    assert(d.declarators.drop_first() =~= Seq::<CDeclaratorV>::empty());
    let pre = r + " "@ + id;
    assert(d.base == Option::Some(
        crate::cdecl::CBaseV {
            is_const: false,
            name: r,
            generic_args: Seq::empty(),
            ctype: Option::None,
        },
    ));
    assert(crate::render::render_base(d.base->Some_0, cfg, col) =~= r);
    assert(crate::render::render_left(seq![fd], false, cfg) =~= Seq::<char>::empty());
    assert(crate::render::render_left(d.declarators, false, cfg) =~= Seq::<char>::empty());
    assert(render_args_h(Seq::<CFuncArgV>::empty(), cfg, col_after(col, pre + "("@))
        == Seq::<char>::empty());
    assert(render_args_v(Seq::<CFuncArgV>::empty(), cfg, col_after(col, pre + "("@))
        == Seq::<char>::empty());
    assert(render_args(
        Seq::<CFuncArgV>::empty(),
        layout,
        cfg,
        col_after(
            col,
            pre + ("("@ + (if cfg.language is C {
                "void"@
            } else {
                Seq::<char>::empty()
            })),
        ),
    ) == Seq::<char>::empty());
    let spre = crate::render::render_base(d.base->Some_0, cfg, col) + " "@ + Seq::<char>::empty()
        + id;
    assert(spre =~= pre);
    let x = col_after(col, spre);
    let rt = crate::render::right_tok(fd, false, cfg, x);
    assert(rt =~= ("("@ + (if cfg.language is C {
        "void"@
    } else {
        Seq::<char>::empty()
    })) + Seq::<char>::empty() + ")"@);
    assert(seq![fd].drop_first() =~= Seq::<CDeclaratorV>::empty());
    assert(crate::render::render_right(Seq::<CDeclaratorV>::empty(), true, cfg, col_after(x, rt))
        == Seq::<char>::empty());
    assert(crate::render::render_right(seq![fd], false, cfg, x) =~= rt);
    assert(render_cdecl(d, Option::Some(id), cfg, col) =~= spre + crate::render::render_right(
        seq![fd],
        false,
        cfg,
        x,
    ));
    assert(render_cdecl(d, Option::Some(id), cfg, col) =~= r + " "@ + id + "("@ + (
    if cfg.language is C {
        "void"@
    } else {
        Seq::<char>::empty()
    }) + ")"@);
}

/// The automatic layout commits the one-line form exactly when its longest
/// line fits within the configured width, and otherwise yields exactly the
/// vertical form, with nothing of the one-line attempt kept.
pub proof fn lemma_auto_layout(args: Seq<CFuncArgV>, cfg: Config, col: nat)
    ensures
        render_args(args, Layout::Auto, cfg, col) == (if max_line_from(
            col,
            0,
            render_args_h(args, cfg, col),
        ) <= cfg.line_length as nat {
            render_args_h(args, cfg, col)
        } else {
            render_args_v(args, cfg, col)
        }),
        render_args(args, Layout::Horizontal, cfg, col) == render_args_h(args, cfg, col),
        render_args(args, Layout::Vertical, cfg, col) == render_args_v(args, cfg, col),
{
}

/// Escaping yields a spelling that collides with no reserved word: no reserved
/// word ends in an underscore, and an unescaped name was not reserved to begin
/// with.
pub proof fn lemma_escaped_not_reserved(s: Seq<char>)
    ensures
        !is_reserved_spec(escaped(s)),
{
    reveal_strlit("_");
    reveal_strlit("auto");
    reveal_strlit("break");
    reveal_strlit("case");
    reveal_strlit("char");
    reveal_strlit("class");
    reveal_strlit("const");
    reveal_strlit("continue");
    reveal_strlit("default");
    reveal_strlit("delete");
    reveal_strlit("do");
    reveal_strlit("double");
    reveal_strlit("else");
    reveal_strlit("enum");
    reveal_strlit("extern");
    reveal_strlit("float");
    reveal_strlit("for");
    reveal_strlit("goto");
    reveal_strlit("if");
    reveal_strlit("inline");
    reveal_strlit("int");
    reveal_strlit("long");
    reveal_strlit("namespace");
    reveal_strlit("new");
    reveal_strlit("operator");
    reveal_strlit("register");
    reveal_strlit("restrict");
    reveal_strlit("return");
    reveal_strlit("short");
    reveal_strlit("signed");
    reveal_strlit("sizeof");
    reveal_strlit("static");
    reveal_strlit("struct");
    reveal_strlit("switch");
    reveal_strlit("template");
    reveal_strlit("typedef");
    reveal_strlit("typename");
    reveal_strlit("union");
    reveal_strlit("unsigned");
    reveal_strlit("virtual");
    reveal_strlit("void");
    reveal_strlit("volatile");
    reveal_strlit("while");
    if is_reserved_spec(s) {
        let e = s + "_"@;
        assert(e.len() > 0);
        assert(e.last() == '_');
        assert(!is_reserved_spec(e));
    }
}

} // verus!
