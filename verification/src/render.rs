use vstd::prelude::*;

use crate::cdecl::CBase;
use crate::cdecl::CBaseV;
use crate::cdecl::CDecl;
use crate::cdecl::CDeclV;
use crate::cdecl::CDeclarator;
use crate::cdecl::CDeclaratorV;
use crate::cdecl::CFuncArg;
use crate::cdecl::CFuncArgV;
use crate::cdecl::CGenericArg;
use crate::cdecl::CGenericArgV;
use crate::cdecl::cbase_view;
use crate::cdecl::cdecl_view;
use crate::cdecl::cdeclarator_view;
use crate::cdecl::cdeclarators_view;
use crate::cdecl::cfuncargs_view;
use crate::cdecl::cgargs_view;
use crate::cdecl::lemma_cdeclarators_view;
use crate::cdecl::lemma_cfuncargs_view;
use crate::cdecl::lemma_cgargs_view;
use crate::cdecl::spec_from_func;
use crate::cdecl::spec_from_type;
use crate::config::Config;
use crate::config::Language;
use crate::config::Layout;
use crate::config::spec_keyword;
use crate::ir::Function;
use crate::ir::Type;
use crate::ir::fargs_view;
use crate::text::advance_col;
use crate::text::append_spaces;
use crate::text::col_after;
use crate::text::col_of;
use crate::text::max_line_from;
use crate::text::measure_max_line;
use crate::text::spaces;

verus! {

broadcast use vstd::std_specs::vec::group_vec_axioms, vstd::seq::group_seq_axioms;

pub open spec fn ident_view(o: Option<&str>) -> Option<Seq<char>> {
    match o {
        Option::Some(s) => Option::Some(s@),
        Option::None => Option::None,
    }
}

/// The text a pointer operation contributes on the left of the identifier: the
/// pointer mark, its own `const`, and the configured nullability attribute
/// (omitted in the attribute-free dialect and on reference-flavored pointers).
pub open spec fn ptr_left_tok(
    is_const: bool,
    is_nullable: bool,
    is_ref: bool,
    cfg: Config,
) -> Seq<char> {
    (if is_ref {
        "&"@
    } else {
        "*"@
    }) + (if is_const {
        "const "@
    } else {
        Seq::<char>::empty()
    }) + (if !(cfg.language is Cython) && !is_ref {
        if !is_nullable {
            match cfg.pointer.non_null_attribute {
                Option::Some(a) => a@ + " "@,
                Option::None => Seq::<char>::empty(),
            }
        } else {
            match cfg.pointer.nullable_attribute {
                Option::Some(a) => a@ + " "@,
                Option::None => Seq::<char>::empty(),
            }
        }
    } else {
        Seq::<char>::empty()
    })
}

pub open spec fn is_ptrlike(d: CDeclaratorV) -> bool {
    d is Ptr || d is Func
}

/// The text one operation contributes in the left pass: pointers print their
/// prefix; an array or function operator opens a group exactly when the
/// operation printed next to it on the identifier side is pointer-like.
pub open spec fn left_tok(d: CDeclaratorV, prev_is_ptr: bool, cfg: Config) -> Seq<char> {
    match d {
        CDeclaratorV::Ptr { is_const, is_nullable, is_ref } => ptr_left_tok(
            is_const,
            is_nullable,
            is_ref,
            cfg,
        ),
        CDeclaratorV::Array { .. } => if prev_is_ptr {
            "("@
        } else {
            Seq::<char>::empty()
        },
        CDeclaratorV::Func { .. } => if prev_is_ptr {
            "("@
        } else {
            Seq::<char>::empty()
        },
    }
}

/// The left pass over the declarators, innermost operation printed first.
pub open spec fn render_left(ds: Seq<CDeclaratorV>, prev_is_ptr: bool, cfg: Config) -> Seq<char>
    decreases ds.len(),
{
    if ds.len() == 0 {
        Seq::<char>::empty()
    } else {
        render_left(ds.drop_first(), is_ptrlike(ds[0]), cfg) + left_tok(ds[0], prev_is_ptr, cfg)
    }
}

/// Whether the right pass leaves a pending group to close after this
/// operation.
pub open spec fn right_lwp(d: CDeclaratorV) -> bool {
    match d {
        CDeclaratorV::Ptr { .. } => true,
        CDeclaratorV::Array { .. } => false,
        CDeclaratorV::Func { .. } => true,
    }
}

/// The whole rendering of one declaration at column `col`: specifier, a space
/// before the identifier if there is one, the left pass, the identifier, and
/// the right pass.
pub open spec fn render_cdecl(d: CDeclV, ident: Option<Seq<char>>, cfg: Config, col: nat) -> Seq<
    char,
>
    decreases d, 3int,
{
    let head = match d.base {
        Option::Some(b) => render_base(b, cfg, col),
        Option::None => Seq::<char>::empty(),
    };
    let sep: Seq<char> = if ident is Some {
        " "@
    } else {
        Seq::<char>::empty()
    };
    let lft = render_left(d.declarators, false, cfg);
    let idt = match ident {
        Option::Some(s) => s,
        Option::None => Seq::<char>::empty(),
    };
    let pre = head + sep + lft + idt;
    pre + render_right(d.declarators, false, cfg, col_after(col, pre))
}

/// The base specifier: qualifier, classification tag (not in the
/// attribute-free dialect), name, and the rendered generic arguments.
pub open spec fn render_base(b: CBaseV, cfg: Config, col: nat) -> Seq<char>
    decreases b, 3int,
{
    let qual: Seq<char> = if b.is_const {
        "const "@
    } else {
        Seq::<char>::empty()
    };
    let tag: Seq<char> = if !(cfg.language is Cython) {
        match b.ctype {
            Option::Some(ct) => spec_keyword(ct) + " "@,
            Option::None => Seq::<char>::empty(),
        }
    } else {
        Seq::<char>::empty()
    };
    let head = qual + tag + b.name;
    if b.generic_args.len() == 0 {
        head
    } else {
        let opened = head + "<"@;
        opened + render_cgargs(b.generic_args, cfg, col_after(col, opened)) + ">"@
    }
}

/// The comma-joined generic-argument list.
pub open spec fn render_cgargs(gs: Seq<CGenericArgV>, cfg: Config, col: nat) -> Seq<char>
    decreases gs, 3int,
{
    if gs.len() == 0 {
        Seq::<char>::empty()
    } else {
        let t0 = match gs[0] {
            CGenericArgV::Decl { d } => render_cdecl(*d, Option::None, cfg, col),
            CGenericArgV::Const { expr } => expr,
        };
        if gs.len() == 1 {
            t0
        } else {
            let lead = t0 + ", "@;
            lead + render_cgargs(gs.drop_first(), cfg, col_after(col, lead))
        }
    }
}

/// The right pass over the declarators, in declarator order.
pub open spec fn render_right(ds: Seq<CDeclaratorV>, lwp: bool, cfg: Config, col: nat) -> Seq<char>
    decreases ds, 3int,
{
    if ds.len() == 0 {
        Seq::<char>::empty()
    } else {
        let t0 = right_tok(ds[0], lwp, cfg, col);
        t0 + render_right(ds.drop_first(), right_lwp(ds[0]), cfg, col_after(col, t0))
    }
}

/// The text one operation contributes in the right pass. A pointer only leaves
/// a pending group; an array closes it and prints its length; a function
/// operator closes it and prints its parenthesized argument list, `void`
/// standing for an empty list in the strict C dialect, and the configured
/// no-return attribute after it.
pub open spec fn right_tok(d: CDeclaratorV, lwp: bool, cfg: Config, col: nat) -> Seq<char>
    decreases d, 3int,
{
    match d {
        CDeclaratorV::Ptr { .. } => Seq::<char>::empty(),
        CDeclaratorV::Array { len } => (if lwp {
            ")"@
        } else {
            Seq::<char>::empty()
        }) + "["@ + len + "]"@,
        CDeclaratorV::Func { args, layout, never_return } => {
            let close: Seq<char> = if lwp {
                ")"@
            } else {
                Seq::<char>::empty()
            };
            let opened: Seq<char> = "("@ + (if args.len() == 0 && cfg.language is C {
                "void"@
            } else {
                Seq::<char>::empty()
            });
            let at = render_args(args, layout, cfg, col_after(col, close + opened));
            close + opened + at + ")"@ + (if never_return && !(cfg.language is Cython) {
                match cfg.function.no_return {
                    Option::Some(a) => " "@ + a@,
                    Option::None => Seq::<char>::empty(),
                }
            } else {
                Seq::<char>::empty()
            })
        },
    }
}

/// The argument list under a layout. Auto commits the one-line form exactly
/// when its longest line fits within the configured width, else it renders the
/// vertical form with nothing of the one-line attempt kept.
pub open spec fn render_args(args: Seq<CFuncArgV>, layout: Layout, cfg: Config, col: nat) -> Seq<
    char,
>
    decreases args, 2int,
{
    match layout {
        Layout::Horizontal => render_args_h(args, cfg, col),
        Layout::Vertical => render_args_v(args, cfg, col),
        Layout::Auto => {
            let h = render_args_h(args, cfg, col);
            if max_line_from(col, 0, h) <= cfg.line_length as nat {
                h
            } else {
                render_args_v(args, cfg, col)
            }
        },
    }
}

/// One argument per line is not wanted: the arguments joined by `, ` on the
/// current line.
pub open spec fn render_args_h(args: Seq<CFuncArgV>, cfg: Config, col: nat) -> Seq<char>
    decreases args, 1int,
{
    if args.len() == 0 {
        Seq::<char>::empty()
    } else {
        let t0 = render_cdecl(args[0].decl, args[0].name, cfg, col);
        if args.len() == 1 {
            t0
        } else {
            let lead = t0 + ", "@;
            lead + render_args_h(args.drop_first(), cfg, col_after(col, lead))
        }
    }
}

/// One argument per line, each aligned at the column where the list started.
pub open spec fn render_args_v(args: Seq<CFuncArgV>, cfg: Config, align: nat) -> Seq<char>
    decreases args, 1int,
{
    if args.len() == 0 {
        Seq::<char>::empty()
    } else {
        render_cdecl(args[0].decl, args[0].name, cfg, align) + render_args_v_rest(
            args.drop_first(),
            cfg,
            align,
        )
    }
}

pub open spec fn render_args_v_rest(args: Seq<CFuncArgV>, cfg: Config, align: nat) -> Seq<char>
    decreases args, 1int,
{
    if args.len() == 0 {
        Seq::<char>::empty()
    } else {
        ","@ + "\n"@ + spaces(align) + render_cdecl(args[0].decl, args[0].name, cfg, align)
            + render_args_v_rest(args.drop_first(), cfg, align)
    }
}

fn write_base(b: &CBase, cfg: &Config, col: usize) -> (r: String)
    ensures
        r@ == render_base(cbase_view(*b), *cfg, col as nat),
    decreases cbase_view(*b), 3int,
{
    let ghost bv = cbase_view(*b);
    let mut out = String::new();
    if b.is_const {
        out.append("const ");
    }
    let cython = matches!(cfg.language, Language::Cython);
    if !cython {
        if let Option::Some(ct) = &b.ctype {
            out.append(ct.keyword());
            out.append(" ");
        }
    }
    out.append(b.name.as_str());
    let ghost qual: Seq<char> = if bv.is_const {
        "const "@
    } else {
        Seq::<char>::empty()
    };
    let ghost tag: Seq<char> = if !(cfg.language is Cython) {
        match bv.ctype {
            Option::Some(ct) => spec_keyword(ct) + " "@,
            Option::None => Seq::<char>::empty(),
        }
    } else {
        Seq::<char>::empty()
    };
    proof {
        assert(out@ =~= qual + tag + bv.name);
    }
    if b.generic_args.len() > 0 {
        out.append("<");
        proof {
            assert(out@ =~= (qual + tag + bv.name) + "<"@);
        }
        let c2 = advance_col(col, out.as_str());
        proof {
            assert(decreases_to!(cbase_view(*b) => cbase_view(*b).generic_args));
            assert(cbase_view(*b).generic_args == cgargs_view(b.generic_args@));
        }
        let g = write_cgargs(&b.generic_args, cfg, c2);
        out.append(g.as_str());
        out.append(">");
        proof {
            assert(bv.generic_args == cgargs_view(b.generic_args@));
            lemma_cgargs_view(b.generic_args@);
            assert(out@ =~= ((qual + tag + bv.name) + "<"@) + render_cgargs(
                bv.generic_args,
                *cfg,
                col_after(col as nat, (qual + tag + bv.name) + "<"@),
            ) + ">"@);
            assert(out@ =~= render_base(bv, *cfg, col as nat));
        }
    } else {
        proof {
            lemma_cgargs_view(b.generic_args@);
            assert(bv.generic_args.len() == 0);
        }
    }
    out
}

#[verifier::loop_isolation(false)]
fn write_cgargs(gs: &Vec<CGenericArg>, cfg: &Config, col: usize) -> (r: String)
    ensures
        r@ == render_cgargs(cgargs_view(gs@), *cfg, col as nat),
    decreases cgargs_view(gs@), 3int,
{
    let ghost gsv = cgargs_view(gs@);
    let n = gs.len();
    let mut acc = String::new();
    let mut cur: usize = col;
    let mut i: usize = 0;
    proof {
        lemma_cgargs_view(gs@);
        assert(gsv.subrange(0, gsv.len() as int) =~= gsv);
    }
    while i < n
        invariant
            i <= n,
            n == gs@.len(),
            gsv.len() == n,
            render_cgargs(gsv, *cfg, col as nat) == acc@ + render_cgargs(
                gsv.subrange(i as int, n as int),
                *cfg,
                cur as nat,
            ),
        decreases n - i,
    {
        proof {
            lemma_cgargs_view(gs@);
            assert(gsv.subrange(i as int, n as int)[0] == gsv[i as int]);
            assert(gsv.subrange(i as int, n as int).drop_first() =~= gsv.subrange(
                i + 1,
                n as int,
            ));
            assert(decreases_to!(gsv => gsv[i as int]));
        }
        let t0: String = match &gs[i] {
            CGenericArg::Decl(dd) => {
                proof {
                    assert(gsv[i as int]->Decl_d == Box::new(cdecl_view(*dd)));
                    assert(decreases_to!(gsv[i as int] => gsv[i as int]->Decl_d));
                }
                dd.write(Option::None, cfg, cur)
            },
            CGenericArg::Const(e) => e.clone(),
        };
        proof {
            assert(t0@ == (match gsv.subrange(i as int, n as int)[0] {
                CGenericArgV::Decl { d } => render_cdecl(*d, Option::None, *cfg, cur as nat),
                CGenericArgV::Const { expr } => expr,
            }));
        }
        if i + 1 < n {
            acc.append(t0.as_str());
            acc.append(", ");
            let c1 = advance_col(cur, t0.as_str());
            let c2 = advance_col(c1, ", ");
            proof {
                crate::text::lemma_col_after_concat(cur as nat, t0@, ", "@);
                assert(render_cgargs(gsv.subrange(i as int, n as int), *cfg, cur as nat) == (t0@
                    + ", "@) + render_cgargs(
                    gsv.subrange(i + 1, n as int),
                    *cfg,
                    col_after(cur as nat, t0@ + ", "@),
                ));
                assert(acc@ + render_cgargs(gsv.subrange(i + 1, n as int), *cfg, c2 as nat)
                    =~= render_cgargs(gsv, *cfg, col as nat));
            }
            cur = c2;
        } else {
            acc.append(t0.as_str());
            proof {
                assert(gsv.subrange(i as int, n as int).len() == 1);
                assert(render_cgargs(gsv.subrange(i as int, n as int), *cfg, cur as nat) == t0@);
                assert(gsv.subrange(i + 1, n as int).len() == 0);
                assert(acc@ + render_cgargs(gsv.subrange(i + 1, n as int), *cfg, cur as nat)
                    =~= render_cgargs(gsv, *cfg, col as nat));
            }
        }
        i = i + 1;
    }
    proof {
        assert(gsv.subrange(n as int, n as int).len() == 0);
        assert(acc@ =~= render_cgargs(gsv, *cfg, col as nat));
    }
    acc
}

#[verifier::loop_isolation(false)]
fn write_left(ds: &Vec<CDeclarator>, cfg: &Config) -> (r: String)
    ensures
        r@ == render_left(cdeclarators_view(ds@), false, *cfg),
{
    let ghost dsv = cdeclarators_view(ds@);
    let n = ds.len();
    let mut out = String::new();
    let mut i: usize = n;
    proof {
        lemma_cdeclarators_view(ds@);
        assert(dsv.subrange(n as int, n as int).len() == 0);
    }
    while i > 0
        invariant
            i <= n,
            n == ds@.len(),
            dsv.len() == n,
            out@ == render_left(
                dsv.subrange(i as int, n as int),
                if i > 0 {
                    is_ptrlike(dsv[i - 1])
                } else {
                    false
                },
                *cfg,
            ),
        decreases i,
    {
        let j = i - 1;
        let next_is_pointer = if j > 0 {
            ds[j - 1].is_ptr()
        } else {
            false
        };
        let ghost flag: bool = if j > 0 {
            is_ptrlike(dsv[j - 1])
        } else {
            false
        };
        let ghost before = out@;
        match &ds[j] {
            CDeclarator::Ptr { is_const, is_nullable, is_ref } => {
                out.append(if *is_ref { "&" } else { "*" });
                if *is_const {
                    out.append("const ");
                }
                let cython = matches!(cfg.language, Language::Cython);
                if !cython && !*is_ref {
                    if !*is_nullable {
                        if let Option::Some(a) = &cfg.pointer.non_null_attribute {
                            out.append(a.as_str());
                            out.append(" ");
                        }
                    } else {
                        if let Option::Some(a) = &cfg.pointer.nullable_attribute {
                            out.append(a.as_str());
                            out.append(" ");
                        }
                    }
                }
                proof {
                    assert(out@ =~= before + ptr_left_tok(
                        *is_const,
                        *is_nullable,
                        *is_ref,
                        *cfg,
                    ));
                }
            },
            CDeclarator::Array(..) => {
                if next_is_pointer {
                    out.append("(");
                }
            },
            CDeclarator::Func { .. } => {
                if next_is_pointer {
                    out.append("(");
                }
            },
        }
        proof {
            assert(out@ =~= before + left_tok(dsv[j as int], flag, *cfg));
            assert(dsv.subrange(j as int, n as int)[0] == dsv[j as int]);
            assert(dsv.subrange(j as int, n as int).drop_first() =~= dsv.subrange(
                i as int,
                n as int,
            ));
            assert(out@ =~= render_left(dsv.subrange(j as int, n as int), flag, *cfg));
        }
        i = j;
    }
    proof {
        assert(dsv.subrange(0, n as int) =~= dsv);
    }
    out
}

#[verifier::loop_isolation(false)]
#[verifier::rlimit(40)]
fn write_right(ds: &Vec<CDeclarator>, cfg: &Config, col: usize) -> (r: String)
    ensures
        r@ == render_right(cdeclarators_view(ds@), false, *cfg, col as nat),
    decreases cdeclarators_view(ds@), 3int,
{
    let ghost dsv = cdeclarators_view(ds@);
    let n = ds.len();
    let mut acc = String::new();
    let mut cur: usize = col;
    let mut lwp = false;
    let mut i: usize = 0;
    proof {
        lemma_cdeclarators_view(ds@);
        assert(dsv.subrange(0, n as int) =~= dsv);
    }
    while i < n
        invariant
            i <= n,
            n == ds@.len(),
            dsv.len() == n,
            render_right(dsv, false, *cfg, col as nat) == acc@ + render_right(
                dsv.subrange(i as int, n as int),
                lwp,
                *cfg,
                cur as nat,
            ),
        decreases n - i,
    {
        proof {
            lemma_cdeclarators_view(ds@);
            assert(dsv.subrange(i as int, n as int)[0] == dsv[i as int]);
            assert(dsv.subrange(i as int, n as int).drop_first() =~= dsv.subrange(
                i + 1,
                n as int,
            ));
            assert(decreases_to!(dsv => dsv[i as int]));
        }
        let mut t = String::new();
        let mut new_lwp = lwp;
        match &ds[i] {
            CDeclarator::Ptr { .. } => {
                new_lwp = true;
            },
            CDeclarator::Array(constant) => {
                if lwp {
                    t.append(")");
                }
                t.append("[");
                t.append(constant.as_str());
                t.append("]");
                new_lwp = false;
                proof {
                    assert(t@ =~= right_tok(dsv[i as int], lwp, *cfg, cur as nat));
                }
            },
            CDeclarator::Func { args, layout, never_return } => {
                proof {
                    assert(decreases_to!(dsv[i as int] => dsv[i as int]->Func_args));
                    assert(dsv[i as int]->Func_args == cfuncargs_view(args@));
                    lemma_cfuncargs_view(args@);
                }
                if lwp {
                    t.append(")");
                }
                t.append("(");
                let is_c = matches!(cfg.language, Language::C);
                if args.len() == 0 && is_c {
                    t.append("void");
                }
                let ghost close: Seq<char> = if lwp {
                    ")"@
                } else {
                    Seq::<char>::empty()
                };
                let ghost opened: Seq<char> = "("@ + (
                if cfuncargs_view(args@).len() == 0 && cfg.language is C {
                    "void"@
                } else {
                    Seq::<char>::empty()
                });
                proof {
                    assert(t@ =~= close + opened);
                }
                let acol = advance_col(cur, t.as_str());
                let at = write_args(args, *layout, cfg, acol);
                t.append(at.as_str());
                t.append(")");
                if *never_return {
                    let cython = matches!(cfg.language, Language::Cython);
                    if !cython {
                        if let Option::Some(a) = &cfg.function.no_return {
                            t.append(" ");
                            t.append(a.as_str());
                        }
                    }
                }
                new_lwp = true;
                proof {
                    assert(t@ =~= right_tok(dsv[i as int], lwp, *cfg, cur as nat));
                }
            },
        }
        proof {
            assert(t@ == right_tok(dsv[i as int], lwp, *cfg, cur as nat));
            assert(new_lwp == right_lwp(dsv[i as int]));
            assert(render_right(dsv.subrange(i as int, n as int), lwp, *cfg, cur as nat) == t@
                + render_right(
                dsv.subrange(i + 1, n as int),
                right_lwp(dsv[i as int]),
                *cfg,
                col_after(cur as nat, t@),
            ));
        }
        let c2 = advance_col(cur, t.as_str());
        acc.append(t.as_str());
        proof {
            assert(render_right(dsv, false, *cfg, col as nat) =~= acc@ + render_right(
                dsv.subrange(i + 1, n as int),
                new_lwp,
                *cfg,
                c2 as nat,
            ));
        }
        cur = c2;
        lwp = new_lwp;
        i = i + 1;
    }
    proof {
        assert(dsv.subrange(n as int, n as int).len() == 0);
        assert(acc@ =~= render_right(dsv, false, *cfg, col as nat));
    }
    acc
}

/// Lays out the argument list. Auto renders the one-line form speculatively,
/// measures it against the configured width, and commits it only when it fits;
/// nothing of a rejected attempt reaches the output.
fn write_args(args: &Vec<CFuncArg>, layout: Layout, cfg: &Config, col: usize) -> (r: String)
    ensures
        r@ == render_args(cfuncargs_view(args@), layout, *cfg, col as nat),
    decreases cfuncargs_view(args@), 2int,
{
    match layout {
        Layout::Horizontal => write_args_h(args, cfg, col),
        Layout::Vertical => write_args_v(args, cfg, col),
        Layout::Auto => {
            let h = write_args_h(args, cfg, col);
            let m = measure_max_line(col, h.as_str());
            if m <= cfg.line_length {
                h
            } else {
                write_args_v(args, cfg, col)
            }
        },
    }
}

#[verifier::loop_isolation(false)]
fn write_args_h(args: &Vec<CFuncArg>, cfg: &Config, col: usize) -> (r: String)
    ensures
        r@ == render_args_h(cfuncargs_view(args@), *cfg, col as nat),
    decreases cfuncargs_view(args@), 1int,
{
    let ghost av = cfuncargs_view(args@);
    let n = args.len();
    let mut acc = String::new();
    let mut cur: usize = col;
    let mut i: usize = 0;
    proof {
        lemma_cfuncargs_view(args@);
        assert(av.subrange(0, n as int) =~= av);
    }
    while i < n
        invariant
            i <= n,
            n == args@.len(),
            av.len() == n,
            render_args_h(av, *cfg, col as nat) == acc@ + render_args_h(
                av.subrange(i as int, n as int),
                *cfg,
                cur as nat,
            ),
        decreases n - i,
    {
        proof {
            lemma_cfuncargs_view(args@);
            assert(av.subrange(i as int, n as int)[0] == av[i as int]);
            assert(av.subrange(i as int, n as int).drop_first() =~= av.subrange(i + 1, n as int));
            assert(decreases_to!(av => av[i as int]));
            assert(decreases_to!(av[i as int] => av[i as int].decl));
        }
        let arg = &args[i];
        let nm: Option<&str> = match &arg.name {
            Option::Some(s) => Option::Some(s.as_str()),
            Option::None => Option::None,
        };
        let t0 = arg.decl.write(nm, cfg, cur);
        proof {
            assert(ident_view(nm) == av[i as int].name);
            assert(t0@ == render_cdecl(av[i as int].decl, av[i as int].name, *cfg, cur as nat));
        }
        if i + 1 < n {
            acc.append(t0.as_str());
            acc.append(", ");
            let c1 = advance_col(cur, t0.as_str());
            let c2 = advance_col(c1, ", ");
            proof {
                crate::text::lemma_col_after_concat(cur as nat, t0@, ", "@);
                assert(render_args_h(av.subrange(i as int, n as int), *cfg, cur as nat) == (t0@
                    + ", "@) + render_args_h(
                    av.subrange(i + 1, n as int),
                    *cfg,
                    col_after(cur as nat, t0@ + ", "@),
                ));
                assert(render_args_h(av, *cfg, col as nat) =~= acc@ + render_args_h(
                    av.subrange(i + 1, n as int),
                    *cfg,
                    c2 as nat,
                ));
            }
            cur = c2;
        } else {
            acc.append(t0.as_str());
            proof {
                assert(av.subrange(i as int, n as int).len() == 1);
                assert(render_args_h(av.subrange(i as int, n as int), *cfg, cur as nat) == t0@);
                assert(av.subrange(i + 1, n as int).len() == 0);
                assert(render_args_h(av, *cfg, col as nat) =~= acc@ + render_args_h(
                    av.subrange(i + 1, n as int),
                    *cfg,
                    cur as nat,
                ));
            }
        }
        i = i + 1;
    }
    proof {
        assert(av.subrange(n as int, n as int).len() == 0);
        assert(acc@ =~= render_args_h(av, *cfg, col as nat));
    }
    acc
}

#[verifier::loop_isolation(false)]
fn write_args_v(args: &Vec<CFuncArg>, cfg: &Config, align: usize) -> (r: String)
    ensures
        r@ == render_args_v(cfuncargs_view(args@), *cfg, align as nat),
    decreases cfuncargs_view(args@), 1int,
{
    let ghost av = cfuncargs_view(args@);
    let n = args.len();
    let mut acc = String::new();
    if n == 0 {
        proof {
            assert(av.len() == 0);
        }
        return acc;
    }
    proof {
        lemma_cfuncargs_view(args@);
        assert(decreases_to!(av => av[0]));
        assert(decreases_to!(av[0] => av[0].decl));
    }
    let first = &args[0];
    let nm0: Option<&str> = match &first.name {
        Option::Some(s) => Option::Some(s.as_str()),
        Option::None => Option::None,
    };
    let t0 = first.decl.write(nm0, cfg, align);
    acc.append(t0.as_str());
    proof {
        assert(ident_view(nm0) == av[0].name);
        assert(av.subrange(1, n as int) =~= av.drop_first());
        assert(acc@ + render_args_v_rest(av.subrange(1, n as int), *cfg, align as nat)
            =~= render_args_v(av, *cfg, align as nat));
    }
    let mut i: usize = 1;
    while i < n
        invariant
            1 <= i <= n,
            n == args@.len(),
            av.len() == n,
            render_args_v(av, *cfg, align as nat) == acc@ + render_args_v_rest(
                av.subrange(i as int, n as int),
                *cfg,
                align as nat,
            ),
        decreases n - i,
    {
        proof {
            lemma_cfuncargs_view(args@);
            assert(av.subrange(i as int, n as int)[0] == av[i as int]);
            assert(av.subrange(i as int, n as int).drop_first() =~= av.subrange(i + 1, n as int));
            assert(decreases_to!(av => av[i as int]));
            assert(decreases_to!(av[i as int] => av[i as int].decl));
        }
        acc.append(",");
        acc.append("\n");
        append_spaces(&mut acc, align);
        let arg = &args[i];
        let nm: Option<&str> = match &arg.name {
            Option::Some(s) => Option::Some(s.as_str()),
            Option::None => Option::None,
        };
        let t = arg.decl.write(nm, cfg, align);
        acc.append(t.as_str());
        proof {
            assert(ident_view(nm) == av[i as int].name);
            assert(render_args_v_rest(av.subrange(i as int, n as int), *cfg, align as nat)
                == ","@ + "\n"@ + spaces(align as nat) + render_cdecl(
                av[i as int].decl,
                av[i as int].name,
                *cfg,
                align as nat,
            ) + render_args_v_rest(av.subrange(i + 1, n as int), *cfg, align as nat));
            assert(render_args_v(av, *cfg, align as nat) =~= acc@ + render_args_v_rest(
                av.subrange(i + 1, n as int),
                *cfg,
                align as nat,
            ));
        }
        i = i + 1;
    }
    proof {
        assert(av.subrange(n as int, n as int).len() == 0);
        assert(acc@ =~= render_args_v(av, *cfg, align as nat));
    }
    acc
}

impl CDecl {
    /// Renders this declaration around the given identifier, starting at
    /// column `col`.
    pub fn write(&self, ident: Option<&str>, config: &Config, col: usize) -> (r: String)
        ensures
            r@ == render_cdecl(self@, ident_view(ident), *config, col as nat),
        decreases self@, 4int,
    {
        let ghost dv = self@;
        let mut out = String::new();
        match &self.base {
            Option::Some(b) => {
                proof {
                    assert(dv.base == Option::Some(cbase_view(*b)));
                    assert(decreases_to!(dv => dv.base));
                    assert(decreases_to!(dv.base => dv.base->Some_0));
                }
                let h = write_base(b, config, col);
                out.append(h.as_str());
            },
            Option::None => {},
        }
        let ghost head: Seq<char> = match dv.base {
            Option::Some(b) => render_base(b, *config, col as nat),
            Option::None => Seq::<char>::empty(),
        };
        proof {
            assert(out@ =~= head);
        }
        if ident.is_some() {
            out.append(" ");
        }
        let ghost sep: Seq<char> = if ident_view(ident) is Some {
            " "@
        } else {
            Seq::<char>::empty()
        };
        proof {
            assert(decreases_to!(dv => dv.declarators));
        }
        let l = write_left(&self.declarators, config);
        out.append(l.as_str());
        if let Option::Some(id) = ident {
            out.append(id);
        }
        let ghost lft = render_left(dv.declarators, false, *config);
        let ghost idt: Seq<char> = match ident_view(ident) {
            Option::Some(s) => s,
            Option::None => Seq::<char>::empty(),
        };
        proof {
            assert(out@ =~= ((head + sep) + lft) + idt);
            assert(out@ =~= head + sep + lft + idt);
        }
        let pre_col = advance_col(col, out.as_str());
        let rgt = write_right(&self.declarators, config, pre_col);
        out.append(rgt.as_str());
        proof {
            assert(out@ =~= (head + sep + lft + idt) + render_right(
                dv.declarators,
                false,
                *config,
                col_after(col as nat, head + sep + lft + idt),
            ));
        }
        out
    }
}

/// Renders a function declaration with its name as the identifier.
pub fn write_func(out: &mut String, f: &Function, layout: Layout, config: &Config)
    requires
        f.wf(),
    ensures
        final(out)@ == old(out)@ + render_cdecl(
            spec_from_func(
                f.ret@,
                fargs_view(f.args@),
                f.never_return,
                layout,
                config.function.args,
            ),
            Option::Some(f.path.name@),
            *config,
            col_of(old(out)@),
        ),
{
    let col = advance_col(0, out.as_str());
    let d = CDecl::from_func(f, layout, config);
    let s = d.write(Option::Some(f.path.name().as_str()), config, col);
    out.append(s.as_str());
}

/// Renders a type around a field or binding identifier.
pub fn write_field(out: &mut String, t: &Type, ident: &str, config: &Config)
    ensures
        final(out)@ == old(out)@ + render_cdecl(
            spec_from_type(t@, false, config.function.args),
            Option::Some(ident@),
            *config,
            col_of(old(out)@),
        ),
{
    let col = advance_col(0, out.as_str());
    let d = CDecl::from_type(t, config);
    let s = d.write(Option::Some(ident), config, col);
    out.append(s.as_str());
}

/// Renders a bare type, with no identifier.
pub fn write_type(out: &mut String, t: &Type, config: &Config)
    ensures
        final(out)@ == old(out)@ + render_cdecl(
            spec_from_type(t@, false, config.function.args),
            Option::None,
            *config,
            col_of(old(out)@),
        ),
{
    let col = advance_col(0, out.as_str());
    let d = CDecl::from_type(t, config);
    let s = d.write(Option::None, config, col);
    out.append(s.as_str());
}

} // verus!
