use vstd::prelude::*;

use crate::config::Config;
use crate::config::DeclarationType;
use crate::config::Layout;
use crate::ir::FuncPtrArgV;
use crate::ir::Function;
use crate::ir::FunctionArgumentV;
use crate::ir::GenericArgV;
use crate::ir::GenericArgument;
use crate::ir::Type;
use crate::ir::TypeV;
use crate::ir::fargs_view;
use crate::ir::lemma_fpargs_view;
use crate::ir::lemma_gargs_view;
use crate::ir::opt_str_view;

verus! {

broadcast use vstd::std_specs::vec::group_vec_axioms, vstd::seq::group_seq_axioms;

/// The base specifier of a declaration: an optional `const` qualifier, the
/// type name, its rendered generic arguments and its classification tag. It is
/// populated exactly once, when synthesis reaches a non-wrapping type.
pub struct CBase {
    pub is_const: bool,
    pub name: String,
    pub generic_args: Vec<CGenericArg>,
    pub ctype: Option<DeclarationType>,
}

/// A generic argument of the base specifier: a nested declaration, or literal
/// constant-expression text.
pub enum CGenericArg {
    Decl(CDecl),
    Const(String),
}

/// One argument of a function declarator.
pub struct CFuncArg {
    pub name: Option<String>,
    pub decl: CDecl,
}

/// One declarator operation, applied around the identifier.
pub enum CDeclarator {
    Ptr { is_const: bool, is_nullable: bool, is_ref: bool },
    Array(String),
    Func { args: Vec<CFuncArg>, layout: Layout, never_return: bool },
}

/// One base specifier plus the ordered declarator operations around the
/// identifier.
pub struct CDecl {
    pub base: Option<CBase>,
    pub declarators: Vec<CDeclarator>,
}

pub ghost struct CBaseV {
    pub is_const: bool,
    pub name: Seq<char>,
    pub generic_args: Seq<CGenericArgV>,
    pub ctype: Option<DeclarationType>,
}

pub ghost enum CGenericArgV {
    Decl { d: Box<CDeclV> },
    Const { expr: Seq<char> },
}

pub ghost struct CFuncArgV {
    pub name: Option<Seq<char>>,
    pub decl: CDeclV,
}

pub ghost enum CDeclaratorV {
    Ptr { is_const: bool, is_nullable: bool, is_ref: bool },
    Array { len: Seq<char> },
    Func { args: Seq<CFuncArgV>, layout: Layout, never_return: bool },
}

pub ghost struct CDeclV {
    pub base: Option<CBaseV>,
    pub declarators: Seq<CDeclaratorV>,
}

pub open spec fn cbase_view(b: CBase) -> CBaseV
    decreases b,
{
    CBaseV {
        is_const: b.is_const,
        name: b.name@,
        generic_args: cgargs_view(b.generic_args@),
        ctype: b.ctype,
    }
}

pub open spec fn cdecl_view(d: CDecl) -> CDeclV
    decreases d,
{
    CDeclV {
        base: match d.base {
            Option::Some(b) => Option::Some(cbase_view(b)),
            Option::None => Option::None,
        },
        declarators: cdeclarators_view(d.declarators@),
    }
}

pub open spec fn cgargs_view(gs: Seq<CGenericArg>) -> Seq<CGenericArgV>
    decreases gs,
{
    if gs.len() == 0 {
        Seq::empty()
    } else {
        let head = match gs[0] {
            CGenericArg::Decl(d) => CGenericArgV::Decl { d: Box::new(cdecl_view(d)) },
            CGenericArg::Const(e) => CGenericArgV::Const { expr: e@ },
        };
        seq![head] + cgargs_view(gs.drop_first())
    }
}

pub open spec fn cdeclarator_view(d: CDeclarator) -> CDeclaratorV
    decreases d,
{
    match d {
        CDeclarator::Ptr { is_const, is_nullable, is_ref } => CDeclaratorV::Ptr {
            is_const,
            is_nullable,
            is_ref,
        },
        CDeclarator::Array(len) => CDeclaratorV::Array { len: len@ },
        CDeclarator::Func { args, layout, never_return } => CDeclaratorV::Func {
            args: cfuncargs_view(args@),
            layout,
            never_return,
        },
    }
}

pub open spec fn cdeclarators_view(ds: Seq<CDeclarator>) -> Seq<CDeclaratorV>
    decreases ds,
{
    if ds.len() == 0 {
        Seq::empty()
    } else {
        seq![cdeclarator_view(ds[0])] + cdeclarators_view(ds.drop_first())
    }
}

pub open spec fn cfuncargs_view(args: Seq<CFuncArg>) -> Seq<CFuncArgV>
    decreases args,
{
    if args.len() == 0 {
        Seq::empty()
    } else {
        seq![
            CFuncArgV { name: opt_str_view(args[0].name), decl: cdecl_view(args[0].decl) },
        ] + cfuncargs_view(args.drop_first())
    }
}

impl View for CDecl {
    type V = CDeclV;

    open spec fn view(&self) -> CDeclV {
        cdecl_view(*self)
    }
}

pub proof fn lemma_cgargs_view(gs: Seq<CGenericArg>)
    ensures
        cgargs_view(gs).len() == gs.len(),
        forall|i: int| 0 <= i < gs.len() ==> cgargs_view(gs)[i] == (match gs[i] {
            CGenericArg::Decl(d) => CGenericArgV::Decl { d: Box::new(cdecl_view(d)) },
            CGenericArg::Const(e) => CGenericArgV::Const { expr: e@ },
        }),
    decreases gs,
{
    if gs.len() > 0 {
        lemma_cgargs_view(gs.drop_first());
    }
}

pub proof fn lemma_cdeclarators_view(ds: Seq<CDeclarator>)
    ensures
        cdeclarators_view(ds).len() == ds.len(),
        forall|i: int| 0 <= i < ds.len() ==> cdeclarators_view(ds)[i] == cdeclarator_view(ds[i]),
    decreases ds,
{
    if ds.len() > 0 {
        lemma_cdeclarators_view(ds.drop_first());
    }
}

pub proof fn lemma_cfuncargs_view(args: Seq<CFuncArg>)
    ensures
        cfuncargs_view(args).len() == args.len(),
        forall|i: int| 0 <= i < args.len() ==> cfuncargs_view(args)[i] == (CFuncArgV {
            name: opt_str_view(args[i].name),
            decl: cdecl_view(args[i].decl),
        }),
    decreases args,
{
    if args.len() > 0 {
        lemma_cfuncargs_view(args.drop_first());
    }
}

/// What synthesis produces for a type: the declarators for each wrapper, from
/// the outermost wrapper inward, and the base specifier set at the
/// non-wrapping core. `is_const` is the constness the enclosing context
/// requested; `fl` is the configured layout for function-pointer argument
/// lists.
pub open spec fn spec_from_type(t: TypeV, is_const: bool, fl: Layout) -> CDeclV
    decreases t,
{
    match t {
        TypeV::Primitive { name } => CDeclV {
            base: Option::Some(
                CBaseV { is_const, name, generic_args: Seq::empty(), ctype: Option::None },
            ),
            declarators: Seq::empty(),
        },
        TypeV::Path { name, generics, ctype } => CDeclV {
            base: Option::Some(
                CBaseV { is_const, name, generic_args: spec_gargs(generics, fl), ctype },
            ),
            declarators: Seq::empty(),
        },
        TypeV::Ptr { inner, is_const: ptr_is_const, is_nullable, is_ref } => {
            let d = spec_from_type(*inner, ptr_is_const, fl);
            CDeclV {
                base: d.base,
                declarators: seq![
                    CDeclaratorV::Ptr { is_const, is_nullable, is_ref },
                ] + d.declarators,
            }
        },
        TypeV::Array { inner, len } => {
            let d = spec_from_type(*inner, is_const, fl);
            CDeclV {
                base: d.base,
                declarators: seq![CDeclaratorV::Array { len }] + d.declarators,
            }
        },
        TypeV::FuncPtr { ret, args, never_return } => {
            let d = spec_from_type(*ret, false, fl);
            CDeclV {
                base: d.base,
                declarators: seq![
                    CDeclaratorV::Ptr { is_const: false, is_nullable: true, is_ref: false },
                    CDeclaratorV::Func { args: spec_fp_args(args, fl), layout: fl, never_return },
                ] + d.declarators,
            }
        },
    }
}

pub open spec fn spec_gargs(gs: Seq<GenericArgV>, fl: Layout) -> Seq<CGenericArgV>
    decreases gs,
{
    if gs.len() == 0 {
        Seq::empty()
    } else {
        let head = match gs[0] {
            GenericArgV::Type { ty } => CGenericArgV::Decl {
                d: Box::new(spec_from_type(*ty, false, fl)),
            },
            GenericArgV::Const { expr } => CGenericArgV::Const { expr },
        };
        seq![head] + spec_gargs(gs.drop_first(), fl)
    }
}

pub open spec fn spec_fp_args(args: Seq<FuncPtrArgV>, fl: Layout) -> Seq<CFuncArgV>
    decreases args,
{
    if args.len() == 0 {
        Seq::empty()
    } else {
        seq![
            CFuncArgV { name: args[0].name, decl: spec_from_type(args[0].ty, false, fl) },
        ] + spec_fp_args(args.drop_first(), fl)
    }
}

pub proof fn lemma_spec_gargs(gs: Seq<GenericArgV>, fl: Layout)
    ensures
        spec_gargs(gs, fl).len() == gs.len(),
        forall|i: int| 0 <= i < gs.len() ==> spec_gargs(gs, fl)[i] == (match gs[i] {
            GenericArgV::Type { ty } => CGenericArgV::Decl {
                d: Box::new(spec_from_type(*ty, false, fl)),
            },
            GenericArgV::Const { expr } => CGenericArgV::Const { expr },
        }),
    decreases gs,
{
    if gs.len() > 0 {
        lemma_spec_gargs(gs.drop_first(), fl);
    }
}

pub proof fn lemma_spec_fp_args(args: Seq<FuncPtrArgV>, fl: Layout)
    ensures
        spec_fp_args(args, fl).len() == args.len(),
        forall|i: int| 0 <= i < args.len() ==> spec_fp_args(args, fl)[i] == (CFuncArgV {
            name: args[i].name,
            decl: spec_from_type(args[i].ty, false, fl),
        }),
    decreases args,
{
    if args.len() > 0 {
        lemma_spec_fp_args(args.drop_first(), fl);
    }
}

/// What synthesis produces for an argument with an array-length override: the
/// pointer is rebuilt as an array of the pointee, keeping the pointer's own
/// constness. Meaningful only when the type is a pointer.
pub open spec fn spec_from_func_arg(ty: TypeV, alen: Option<Seq<char>>, fl: Layout) -> CDeclV {
    match alen {
        Option::None => spec_from_type(ty, false, fl),
        Option::Some(len) => spec_from_type(
            TypeV::Array { inner: ty->Ptr_inner, len },
            ty->Ptr_is_const,
            fl,
        ),
    }
}

/// What synthesis produces for a whole function: one function declarator over
/// the synthesized arguments, then the return type's declarators and base.
pub open spec fn spec_from_func(
    ret: TypeV,
    args: Seq<FunctionArgumentV>,
    never_return: bool,
    layout: Layout,
    fl: Layout,
) -> CDeclV {
    let d = spec_from_type(ret, false, fl);
    CDeclV {
        base: d.base,
        declarators: seq![
            CDeclaratorV::Func { args: spec_func_args(args, fl), layout, never_return },
        ] + d.declarators,
    }
}

pub open spec fn spec_func_args(args: Seq<FunctionArgumentV>, fl: Layout) -> Seq<CFuncArgV>
    decreases args,
{
    if args.len() == 0 {
        Seq::empty()
    } else {
        seq![
            CFuncArgV {
                name: args[0].name,
                decl: spec_from_func_arg(args[0].ty, args[0].array_length, fl),
            },
        ] + spec_func_args(args.drop_first(), fl)
    }
}

pub proof fn lemma_spec_func_args(args: Seq<FunctionArgumentV>, fl: Layout)
    ensures
        spec_func_args(args, fl).len() == args.len(),
        forall|i: int| 0 <= i < args.len() ==> spec_func_args(args, fl)[i] == (CFuncArgV {
            name: args[i].name,
            decl: spec_from_func_arg(args[i].ty, args[i].array_length, fl),
        }),
    decreases args,
{
    if args.len() > 0 {
        lemma_spec_func_args(args.drop_first(), fl);
    }
}

impl CDeclarator {
    /// Whether this operation binds like a pointer on the identifier side, so
    /// that an adjacent array or function operator needs parentheses.
    pub fn is_ptr(&self) -> (r: bool)
        ensures
            r == (cdeclarator_view(*self) is Ptr || cdeclarator_view(*self) is Func),
    {
        match self {
            CDeclarator::Ptr { .. } => true,
            CDeclarator::Func { .. } => true,
            CDeclarator::Array(..) => false,
        }
    }
}

impl CDecl {
    pub fn new() -> (r: CDecl)
        ensures
            r@ == (CDeclV { base: Option::None, declarators: Seq::<CDeclaratorV>::empty() }),
    {
        CDecl { base: Option::None, declarators: Vec::new() }
    }

    pub fn from_type(t: &Type, config: &Config) -> (r: CDecl)
        ensures
            r@ == spec_from_type(t@, false, config.function.args),
        decreases t@, 1int,
    {
        let mut cdecl = CDecl::new();
        cdecl.build_type(t, false, config);
        cdecl
    }

    /// Synthesizes a function argument. An array-length override asserts the
    /// argument is a pointer, which the loader guarantees.
    pub fn from_func_arg(t: &Type, array_length: Option<&String>, config: &Config) -> (r: CDecl)
        requires
            array_length is Some ==> t@ is Ptr,
        ensures
            r@ == spec_from_func_arg(
                t@,
                match array_length {
                    Option::Some(l) => Option::Some(l@),
                    Option::None => Option::None,
                },
                config.function.args,
            ),
    {
        let mut cdecl = CDecl::new();
        let length = match array_length {
            Option::Some(l) => l,
            Option::None => {
                return CDecl::from_type(t, config);
            },
        };
        let (ty, is_const) = match t {
            Type::Ptr { ty, is_const, .. } => (ty, *is_const),
            _ => {
                proof {
                    assert(false);
                }
                return CDecl::from_type(t, config);
            },
        };
        let inner = ty.deep_clone();
        let ptr_as_array = Type::Array(Box::new(inner), length.clone());
        cdecl.build_type(&ptr_as_array, is_const, config);
        proof {
            assert(ptr_as_array@ == (TypeV::Array { inner: t@->Ptr_inner, len: length@ }));
        }
        cdecl
    }

    pub fn from_func(f: &Function, layout: Layout, config: &Config) -> (r: CDecl)
        requires
            f.wf(),
        ensures
            r@ == spec_from_func(
                f.ret@,
                fargs_view(f.args@),
                f.never_return,
                layout,
                config.function.args,
            ),
    {
        let mut cdecl = CDecl::new();
        cdecl.build_func(f, layout, config);
        cdecl
    }

    #[verifier::loop_isolation(false)]
    pub fn build_func(&mut self, f: &Function, layout: Layout, config: &Config)
        requires
            old(self)@.base is None,
            old(self)@.declarators.len() == 0,
            f.wf(),
        ensures
            final(self)@ == spec_from_func(
                f.ret@,
                fargs_view(f.args@),
                f.never_return,
                layout,
                config.function.args,
            ),
    {
        let ghost fl = config.function.args;
        let ghost argsv = fargs_view(f.args@);
        let mut args: Vec<CFuncArg> = Vec::new();
        let mut i: usize = 0;
        while i < f.args.len()
            invariant
                i <= f.args@.len(),
                args@.len() == i,
                forall|j: int| 0 <= j < i ==> cfuncargs_view(args@)[j] == spec_func_args(
                    argsv,
                    fl,
                )[j],
            decreases f.args@.len() - i,
        {
            proof {
                lemma_spec_func_args(argsv, fl);
                assert(argsv[i as int] == f.args@[i as int]@);
            }
            let arg = &f.args[i];
            let name = match &arg.name {
                Option::Some(n) => Option::Some(n.clone()),
                Option::None => Option::None,
            };
            let alen = match &arg.array_length {
                Option::Some(l) => Option::Some(l),
                Option::None => Option::None,
            };
            let ghost prev = args@;
            proof {
                lemma_cfuncargs_view(prev);
            }
            let decl = CDecl::from_func_arg(&arg.ty, alen, config);
            args.push(CFuncArg { name, decl });
            proof {
                lemma_cfuncargs_view(args@);
                assert(forall|j: int| 0 <= j < i ==> args@[j] == prev[j]);
            }
            i = i + 1;
        }
        proof {
            lemma_cfuncargs_view(args@);
            lemma_spec_func_args(argsv, fl);
            assert(cfuncargs_view(args@) =~= spec_func_args(argsv, fl));
        }
        let ghost cav = cfuncargs_view(args@);
        self.declarators.push(
            CDeclarator::Func { args, layout, never_return: f.never_return },
        );
        proof {
            lemma_cdeclarators_view(self.declarators@);
            assert(self.declarators@.len() == 1);
            assert(cdeclarator_view(self.declarators@[0]) == (CDeclaratorV::Func {
                args: cav,
                layout,
                never_return: f.never_return,
            }));
            assert(self@.declarators =~= seq![
                CDeclaratorV::Func { args: cav, layout, never_return: f.never_return },
            ]);
        }
        self.build_type(&f.ret, false, config);
        proof {
            assert(self@.declarators =~= spec_from_func(
                f.ret@,
                argsv,
                f.never_return,
                layout,
                fl,
            ).declarators);
        }
    }

    /// The synthesis recursion: pushes one declarator per wrapper and sets the
    /// base specifier exactly once, at the non-wrapping core.
    #[verifier::loop_isolation(false)]
    pub fn build_type(&mut self, t: &Type, is_const: bool, config: &Config)
        requires
            old(self)@.base is None,
        ensures
            final(self)@.base == spec_from_type(t@, is_const, config.function.args).base,
            final(self)@.declarators == old(self)@.declarators + spec_from_type(
                t@,
                is_const,
                config.function.args,
            ).declarators,
        decreases t@, 0int,
    {
        let ghost fl = config.function.args;
        match t {
            Type::Path(gp) => {
                let ghost gsv = crate::ir::gargs_view(gp.generics@);
                let mut gens: Vec<CGenericArg> = Vec::new();
                let mut i: usize = 0;
                while i < gp.generics.len()
                    invariant
                        i <= gp.generics@.len(),
                        gens@.len() == i,
                        forall|j: int| 0 <= j < i ==> cgargs_view(gens@)[j] == spec_gargs(
                            gsv,
                            fl,
                        )[j],
                    decreases gp.generics@.len() - i,
                {
                    proof {
                        lemma_gargs_view(gp.generics@);
                        lemma_spec_gargs(gsv, fl);
                        assert(decreases_to!(t@ => t@->Path_generics));
                        assert(t@->Path_generics == gsv);
                        assert(decreases_to!(gsv => gsv[i as int]));
                    }
                    let g = match &gp.generics[i] {
                        GenericArgument::Type(ty) => {
                            proof {
                                assert(gsv[i as int] == crate::ir::garg_view(
                                    gp.generics@[i as int],
                                ));
                                assert(decreases_to!(gsv[i as int] => gsv[i as int]->Type_ty));
                                assert(gsv[i as int]->Type_ty == Box::new(ty@));
                            }
                            CGenericArg::Decl(CDecl::from_type(ty, config))
                        },
                        GenericArgument::Const(e) => CGenericArg::Const(e.clone()),
                    };
                    proof {
                        lemma_cgargs_view(gens@);
                    }
                    let ghost prevg = gens@;
                    gens.push(g);
                    proof {
                        lemma_cgargs_view(gens@);
                        assert(forall|j: int| 0 <= j < i ==> gens@[j] == prevg[j]);
                    }
                    i = i + 1;
                }
                proof {
                    lemma_cgargs_view(gens@);
                    lemma_spec_gargs(gsv, fl);
                    lemma_gargs_view(gp.generics@);
                    assert(cgargs_view(gens@) =~= spec_gargs(gsv, fl));
                }
                self.base = Option::Some(
                    CBase {
                        is_const,
                        name: gp.name.clone(),
                        generic_args: gens,
                        ctype: gp.ctype,
                    },
                );
                proof {
                    assert(self@.declarators =~= old(self)@.declarators + Seq::<
                        CDeclaratorV,
                    >::empty());
                }
            },
            Type::Primitive(p) => {
                self.base = Option::Some(
                    CBase {
                        is_const,
                        name: p.clone(),
                        generic_args: Vec::new(),
                        ctype: Option::None,
                    },
                );
                proof {
                    assert(cgargs_view(Seq::<CGenericArg>::empty()) =~= Seq::<
                        CGenericArgV,
                    >::empty());
                    assert(self@.declarators =~= old(self)@.declarators + Seq::<
                        CDeclaratorV,
                    >::empty());
                }
            },
            Type::Ptr { ty, is_nullable, is_const: ptr_is_const, is_ref } => {
                self.declarators.push(
                    CDeclarator::Ptr {
                        is_const,
                        is_nullable: *is_nullable,
                        is_ref: *is_ref,
                    },
                );
                proof {
                    lemma_push_view(old(self).declarators@, CDeclarator::Ptr {
                        is_const,
                        is_nullable: *is_nullable,
                        is_ref: *is_ref,
                    });
                }
                self.build_type(ty, *ptr_is_const, config);
                proof {
                    assert(self@.declarators =~= old(self)@.declarators
                        + spec_from_type(t@, is_const, fl).declarators);
                }
            },
            Type::Array(ty, constant) => {
                let len = constant.clone();
                self.declarators.push(CDeclarator::Array(len));
                proof {
                    lemma_push_view(
                        old(self).declarators@,
                        self.declarators@[self.declarators@.len() - 1],
                    );
                    assert(cdeclarator_view(self.declarators@[self.declarators@.len() - 1])
                        == (CDeclaratorV::Array { len: constant@ }));
                }
                self.build_type(ty, is_const, config);
                proof {
                    assert(self@.declarators =~= old(self)@.declarators
                        + spec_from_type(t@, is_const, fl).declarators);
                }
            },
            Type::FuncPtr { ret, args, never_return } => {
                let ghost argsv = crate::ir::fpargs_view(args@);
                let mut cargs: Vec<CFuncArg> = Vec::new();
                let mut i: usize = 0;
                while i < args.len()
                    invariant
                        i <= args@.len(),
                        cargs@.len() == i,
                        forall|j: int| 0 <= j < i ==> cfuncargs_view(cargs@)[j] == spec_fp_args(
                            argsv,
                            fl,
                        )[j],
                    decreases args@.len() - i,
                {
                    proof {
                        lemma_fpargs_view(args@);
                        lemma_spec_fp_args(argsv, fl);
                        assert(argsv[i as int] == crate::ir::fparg_view(args@[i as int]));
                        assert(decreases_to!(t@ => t@->FuncPtr_args));
                        assert(t@->FuncPtr_args == argsv);
                        assert(decreases_to!(argsv => argsv[i as int]));
                        assert(decreases_to!(argsv[i as int] => argsv[i as int].ty));
                    }
                    let arg = &args[i];
                    let name = match &arg.name {
                        Option::Some(n) => Option::Some(n.clone()),
                        Option::None => Option::None,
                    };
                    let ghost prevc = cargs@;
                    proof {
                        lemma_cfuncargs_view(prevc);
                    }
                    let decl = CDecl::from_type(&arg.ty, config);
                    cargs.push(CFuncArg { name, decl });
                    proof {
                        lemma_cfuncargs_view(cargs@);
                        assert(forall|j: int| 0 <= j < i ==> cargs@[j] == prevc[j]);
                    }
                    i = i + 1;
                }
                proof {
                    lemma_cfuncargs_view(cargs@);
                    lemma_spec_fp_args(argsv, fl);
                    lemma_fpargs_view(args@);
                    assert(cfuncargs_view(cargs@) =~= spec_fp_args(argsv, fl));
                }
                let ghost cav = cfuncargs_view(cargs@);
                self.declarators.push(
                    CDeclarator::Ptr { is_const: false, is_nullable: true, is_ref: false },
                );
                proof {
                    lemma_push_view(
                        old(self).declarators@,
                        CDeclarator::Ptr { is_const: false, is_nullable: true, is_ref: false },
                    );
                }
                let ghost mid = self.declarators@;
                self.declarators.push(
                    CDeclarator::Func {
                        args: cargs,
                        layout: config.function.args,
                        never_return: *never_return,
                    },
                );
                proof {
                    lemma_push_view(mid, self.declarators@[self.declarators@.len() - 1]);
                    assert(cdeclarator_view(self.declarators@[self.declarators@.len() - 1])
                        == (CDeclaratorV::Func {
                        args: cav,
                        layout: config.function.args,
                        never_return: *never_return,
                    }));
                }
                self.build_type(ret, false, config);
                proof {
                    assert(self@.declarators =~= old(self)@.declarators
                        + spec_from_type(t@, is_const, fl).declarators);
                }
            },
        }
    }
}

/// Pushing one declarator appends its model to the list's model.
pub proof fn lemma_push_view(ds: Seq<CDeclarator>, d: CDeclarator)
    ensures
        cdeclarators_view(ds.push(d)) == cdeclarators_view(ds) + seq![cdeclarator_view(d)],
{
    lemma_cdeclarators_view(ds.push(d));
    lemma_cdeclarators_view(ds);
    assert forall|j: int| 0 <= j < ds.len() + 1 implies cdeclarators_view(ds.push(d))[j] == (
    cdeclarators_view(ds) + seq![cdeclarator_view(d)])[j] by {
        if j < ds.len() {
            assert(ds.push(d)[j] == ds[j]);
        } else {
            assert(ds.push(d)[j] == d);
        }
    }
    assert(cdeclarators_view(ds.push(d)) =~= cdeclarators_view(ds) + seq![cdeclarator_view(d)]);
}

} // verus!
