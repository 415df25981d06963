use vstd::prelude::*;

use crate::config::DeclarationType;
use crate::config::RenameRule;

verus! {

broadcast use vstd::std_specs::vec::group_vec_axioms, vstd::seq::group_seq_axioms;

/// A qualified name, already flattened to the single name used in output.
#[derive(Debug)]
pub struct Path {
    pub name: String,
}

impl Path {
    pub fn new(name: String) -> (r: Path)
        ensures
            r.name@ == name@,
    {
        Path { name }
    }

    pub fn name(&self) -> (r: &String)
        ensures
            r@ == self.name@,
    {
        &self.name
    }

    pub fn deep_clone(&self) -> (r: Path)
        ensures
            r.name@ == self.name@,
    {
        Path { name: self.name.clone() }
    }
}

/// Mathematical model of a type: the view of `Type`.
pub ghost enum TypeV {
    Primitive { name: Seq<char> },
    Path { name: Seq<char>, generics: Seq<GenericArgV>, ctype: Option<DeclarationType> },
    Ptr { inner: Box<TypeV>, is_const: bool, is_nullable: bool, is_ref: bool },
    Array { inner: Box<TypeV>, len: Seq<char> },
    FuncPtr { ret: Box<TypeV>, args: Seq<FuncPtrArgV>, never_return: bool },
}

pub ghost enum GenericArgV {
    Type { ty: Box<TypeV> },
    Const { expr: Seq<char> },
}

pub ghost struct FuncPtrArgV {
    pub name: Option<Seq<char>>,
    pub ty: TypeV,
}

/// A named type with its generic arguments and, once resolution has run, its
/// declaration-type classification.
#[derive(Debug)]
pub struct GenericPath {
    pub name: String,
    pub generics: Vec<GenericArgument>,
    pub ctype: Option<DeclarationType>,
}

/// One generic argument: a nested type, or literal constant-expression text.
#[derive(Debug)]
pub enum GenericArgument {
    Type(Type),
    Const(String),
}

/// One argument of a function-pointer type.
#[derive(Debug)]
pub struct FuncPtrArg {
    pub name: Option<String>,
    pub ty: Type,
}

/// The resolved representation of a type.
#[derive(Debug)]
pub enum Type {
    Primitive(String),
    Path(GenericPath),
    Ptr { ty: Box<Type>, is_const: bool, is_nullable: bool, is_ref: bool },
    Array(Box<Type>, String),
    FuncPtr { ret: Box<Type>, args: Vec<FuncPtrArg>, never_return: bool },
}

pub open spec fn opt_str_view(o: Option<String>) -> Option<Seq<char>> {
    match o {
        Option::Some(s) => Option::Some(s@),
        Option::None => Option::None,
    }
}

pub open spec fn type_view(t: Type) -> TypeV
    decreases t,
{
    match t {
        Type::Primitive(n) => TypeV::Primitive { name: n@ },
        Type::Path(gp) => TypeV::Path {
            name: gp.name@,
            generics: gargs_view(gp.generics@),
            ctype: gp.ctype,
        },
        Type::Ptr { ty, is_const, is_nullable, is_ref } => TypeV::Ptr {
            inner: Box::new(type_view(*ty)),
            is_const,
            is_nullable,
            is_ref,
        },
        Type::Array(ty, len) => TypeV::Array { inner: Box::new(type_view(*ty)), len: len@ },
        Type::FuncPtr { ret, args, never_return } => TypeV::FuncPtr {
            ret: Box::new(type_view(*ret)),
            args: fpargs_view(args@),
            never_return,
        },
    }
}

pub open spec fn garg_view(g: GenericArgument) -> GenericArgV
    decreases g,
{
    match g {
        GenericArgument::Type(t) => GenericArgV::Type { ty: Box::new(type_view(t)) },
        GenericArgument::Const(e) => GenericArgV::Const { expr: e@ },
    }
}

pub open spec fn gargs_view(gs: Seq<GenericArgument>) -> Seq<GenericArgV>
    decreases gs,
{
    if gs.len() == 0 {
        Seq::empty()
    } else {
        seq![garg_view(gs[0])] + gargs_view(gs.drop_first())
    }
}

pub open spec fn fparg_view(a: FuncPtrArg) -> FuncPtrArgV
    decreases a,
{
    FuncPtrArgV { name: opt_str_view(a.name), ty: type_view(a.ty) }
}

pub open spec fn fpargs_view(args: Seq<FuncPtrArg>) -> Seq<FuncPtrArgV>
    decreases args,
{
    if args.len() == 0 {
        Seq::empty()
    } else {
        seq![fparg_view(args[0])] + fpargs_view(args.drop_first())
    }
}

impl View for Type {
    type V = TypeV;

    open spec fn view(&self) -> TypeV {
        type_view(*self)
    }
}

pub proof fn lemma_gargs_view(gs: Seq<GenericArgument>)
    ensures
        gargs_view(gs).len() == gs.len(),
        forall|i: int| 0 <= i < gs.len() ==> gargs_view(gs)[i] == garg_view(gs[i]),
    decreases gs,
{
    if gs.len() > 0 {
        lemma_gargs_view(gs.drop_first());
    }
}

pub proof fn lemma_fpargs_view(args: Seq<FuncPtrArg>)
    ensures
        fpargs_view(args).len() == args.len(),
        forall|i: int| 0 <= i < args.len() ==> fpargs_view(args)[i] == fparg_view(args[i]),
    decreases args,
{
    if args.len() > 0 {
        lemma_fpargs_view(args.drop_first());
    }
}

impl GenericArgument {
    pub fn deep_clone(&self) -> (r: GenericArgument)
        ensures
            garg_view(r) == garg_view(*self),
        decreases self,
    {
        match self {
            GenericArgument::Type(t) => GenericArgument::Type(t.deep_clone()),
            GenericArgument::Const(e) => GenericArgument::Const(e.clone()),
        }
    }
}

impl Type {
    /// A structural copy; `Clone` written out so that the copy's model is known.
    #[verifier::loop_isolation(false)]
    pub fn deep_clone(&self) -> (r: Type)
        ensures
            r@ == self@,
        decreases self,
    {
        match self {
            Type::Primitive(n) => Type::Primitive(n.clone()),
            Type::Path(gp) => {
                let mut gens: Vec<GenericArgument> = Vec::new();
                let mut i: usize = 0;
                while i < gp.generics.len()
                    invariant
                        i <= gp.generics@.len(),
                        gens@.len() == i,
                        forall|j: int| 0 <= j < i ==> garg_view(gens@[j]) == garg_view(
                            gp.generics@[j],
                        ),
                    decreases gp.generics@.len() - i,
                {
                    proof {
                        assert(decreases_to!(*self => (*self)->Path_0));
                        assert((*self)->Path_0 == *gp);
                        assert(decreases_to!(*gp => gp.generics));
                        assert(decreases_to!(gp.generics => gp.generics@));
                        assert(decreases_to!(gp.generics@ => gp.generics@[i as int]));
                    }
                    let g = gp.generics[i].deep_clone();
                    gens.push(g);
                    i = i + 1;
                }
                proof {
                    lemma_gargs_view(gens@);
                    lemma_gargs_view(gp.generics@);
                    assert(gargs_view(gens@) =~= gargs_view(gp.generics@));
                }
                Type::Path(
                    GenericPath { name: gp.name.clone(), generics: gens, ctype: gp.ctype },
                )
            }
            Type::Ptr { ty, is_const, is_nullable, is_ref } => Type::Ptr {
                ty: Box::new(ty.deep_clone()),
                is_const: *is_const,
                is_nullable: *is_nullable,
                is_ref: *is_ref,
            },
            Type::Array(ty, len) => Type::Array(Box::new(ty.deep_clone()), len.clone()),
            Type::FuncPtr { ret, args, never_return } => {
                let mut nargs: Vec<FuncPtrArg> = Vec::new();
                let mut i: usize = 0;
                while i < args.len()
                    invariant
                        i <= args@.len(),
                        nargs@.len() == i,
                        forall|j: int| 0 <= j < i ==> fparg_view(nargs@[j]) == fparg_view(
                            args@[j],
                        ),
                    decreases args@.len() - i,
                {
                    proof {
                        assert(decreases_to!(*self => (*self)->FuncPtr_args));
                        assert((*self)->FuncPtr_args == *args);
                        assert(decreases_to!(*args => args@));
                        assert(decreases_to!(args@ => args@[i as int]));
                        assert(decreases_to!(args@[i as int] => args@[i as int].ty));
                    }
                    let name = match &args[i].name {
                        Option::Some(n) => Option::Some(n.clone()),
                        Option::None => Option::None,
                    };
                    let ty = args[i].ty.deep_clone();
                    nargs.push(FuncPtrArg { name, ty });
                    i = i + 1;
                }
                proof {
                    lemma_fpargs_view(nargs@);
                    lemma_fpargs_view(args@);
                    assert(fpargs_view(nargs@) =~= fpargs_view(args@));
                }
                Type::FuncPtr {
                    ret: Box::new(ret.deep_clone()),
                    args: nargs,
                    never_return: *never_return,
                }
            }
        }
    }
}

/// What self-placeholder substitution does to a model type: every path node
/// named `Self` takes the receiver's name instead.
pub open spec fn spec_replace_self(t: TypeV, p: Seq<char>) -> TypeV
    decreases t,
{
    match t {
        TypeV::Primitive { name } => TypeV::Primitive { name },
        TypeV::Path { name, generics, ctype } => TypeV::Path {
            name: if name == "Self"@ { p } else { name },
            generics: spec_replace_self_gargs(generics, p),
            ctype,
        },
        TypeV::Ptr { inner, is_const, is_nullable, is_ref } => TypeV::Ptr {
            inner: Box::new(spec_replace_self(*inner, p)),
            is_const,
            is_nullable,
            is_ref,
        },
        TypeV::Array { inner, len } => TypeV::Array {
            inner: Box::new(spec_replace_self(*inner, p)),
            len,
        },
        TypeV::FuncPtr { ret, args, never_return } => TypeV::FuncPtr {
            ret: Box::new(spec_replace_self(*ret, p)),
            args: spec_replace_self_fpargs(args, p),
            never_return,
        },
    }
}

pub open spec fn spec_replace_self_gargs(gs: Seq<GenericArgV>, p: Seq<char>) -> Seq<GenericArgV>
    decreases gs,
{
    if gs.len() == 0 {
        Seq::empty()
    } else {
        let head = match gs[0] {
            GenericArgV::Type { ty } => GenericArgV::Type {
                ty: Box::new(spec_replace_self(*ty, p)),
            },
            GenericArgV::Const { expr } => GenericArgV::Const { expr },
        };
        seq![head] + spec_replace_self_gargs(gs.drop_first(), p)
    }
}

pub open spec fn spec_replace_self_fpargs(args: Seq<FuncPtrArgV>, p: Seq<char>) -> Seq<
    FuncPtrArgV,
>
    decreases args,
{
    if args.len() == 0 {
        Seq::empty()
    } else {
        seq![
            FuncPtrArgV { name: args[0].name, ty: spec_replace_self(args[0].ty, p) },
        ] + spec_replace_self_fpargs(args.drop_first(), p)
    }
}

pub proof fn lemma_replace_self_gargs(gs: Seq<GenericArgV>, p: Seq<char>)
    ensures
        spec_replace_self_gargs(gs, p).len() == gs.len(),
        forall|i: int| 0 <= i < gs.len() ==> spec_replace_self_gargs(gs, p)[i] == (match gs[i] {
            GenericArgV::Type { ty } => GenericArgV::Type {
                ty: Box::new(spec_replace_self(*ty, p)),
            },
            GenericArgV::Const { expr } => GenericArgV::Const { expr },
        }),
    decreases gs,
{
    if gs.len() > 0 {
        lemma_replace_self_gargs(gs.drop_first(), p);
    }
}

pub proof fn lemma_replace_self_fpargs(args: Seq<FuncPtrArgV>, p: Seq<char>)
    ensures
        spec_replace_self_fpargs(args, p).len() == args.len(),
        forall|i: int| 0 <= i < args.len() ==> spec_replace_self_fpargs(args, p)[i]
            == (FuncPtrArgV { name: args[i].name, ty: spec_replace_self(args[i].ty, p) }),
    decreases args,
{
    if args.len() > 0 {
        lemma_replace_self_fpargs(args.drop_first(), p);
    }
}

#[verifier::loop_isolation(false)]
fn replaced_self(t: &Type, p: &Path) -> (r: Type)
    ensures
        r@ == spec_replace_self(t@, p.name@),
    decreases t,
{
    match t {
        Type::Primitive(n) => Type::Primitive(n.clone()),
        Type::Path(gp) => {
            let name = if crate::text::string_eq_str(&gp.name, "Self") {
                proof {
                    reveal_strlit("Self");
                }
                p.name.clone()
            } else {
                proof {
                    reveal_strlit("Self");
                }
                gp.name.clone()
            };
            let ghost orig = gargs_view(gp.generics@);
            let mut gens: Vec<GenericArgument> = Vec::new();
            let mut i: usize = 0;
            while i < gp.generics.len()
                invariant
                    i <= gp.generics@.len(),
                    gens@.len() == i,
                    orig == gargs_view(gp.generics@),
                    forall|j: int| 0 <= j < i ==> garg_view(gens@[j])
                        == spec_replace_self_gargs(orig, p.name@)[j],
                decreases gp.generics@.len() - i,
            {
                proof {
                    lemma_gargs_view(gp.generics@);
                    lemma_replace_self_gargs(orig, p.name@);
                    assert(decreases_to!(*t => (*t)->Path_0));
                    assert((*t)->Path_0 == *gp);
                    assert(decreases_to!(*gp => gp.generics));
                    assert(decreases_to!(gp.generics => gp.generics@));
                    assert(decreases_to!(gp.generics@ => gp.generics@[i as int]));
                }
                let ng = match &gp.generics[i] {
                    GenericArgument::Type(ty) => {
                        proof {
                            assert(decreases_to!(gp.generics@[i as int] => gp.generics@[i as int]->Type_0));
                        }
                        GenericArgument::Type(replaced_self(ty, p))
                    }
                    GenericArgument::Const(e) => GenericArgument::Const(e.clone()),
                };
                gens.push(ng);
                i = i + 1;
            }
            proof {
                lemma_gargs_view(gens@);
                lemma_replace_self_gargs(orig, p.name@);
                lemma_gargs_view(gp.generics@);
                assert(gargs_view(gens@) =~= spec_replace_self_gargs(orig, p.name@));
            }
            Type::Path(GenericPath { name, generics: gens, ctype: gp.ctype })
        }
        Type::Ptr { ty, is_const, is_nullable, is_ref } => Type::Ptr {
            ty: Box::new(replaced_self(ty, p)),
            is_const: *is_const,
            is_nullable: *is_nullable,
            is_ref: *is_ref,
        },
        Type::Array(ty, len) => Type::Array(Box::new(replaced_self(ty, p)), len.clone()),
        Type::FuncPtr { ret, args, never_return } => {
            let ghost orig = fpargs_view(args@);
            let mut nargs: Vec<FuncPtrArg> = Vec::new();
            let mut i: usize = 0;
            while i < args.len()
                invariant
                    i <= args@.len(),
                    nargs@.len() == i,
                    orig == fpargs_view(args@),
                    forall|j: int| 0 <= j < i ==> fparg_view(nargs@[j])
                        == spec_replace_self_fpargs(orig, p.name@)[j],
                decreases args@.len() - i,
            {
                proof {
                    lemma_fpargs_view(args@);
                    lemma_replace_self_fpargs(orig, p.name@);
                    assert(decreases_to!(*t => (*t)->FuncPtr_args));
                    assert((*t)->FuncPtr_args == *args);
                    assert(decreases_to!(*args => args@));
                    assert(decreases_to!(args@ => args@[i as int]));
                    assert(decreases_to!(args@[i as int] => args@[i as int].ty));
                }
                let name = match &args[i].name {
                    Option::Some(n) => Option::Some(n.clone()),
                    Option::None => Option::None,
                };
                let ty = replaced_self(&args[i].ty, p);
                nargs.push(FuncPtrArg { name, ty });
                i = i + 1;
            }
            proof {
                lemma_fpargs_view(nargs@);
                lemma_replace_self_fpargs(orig, p.name@);
                lemma_fpargs_view(args@);
                assert(fpargs_view(nargs@) =~= spec_replace_self_fpargs(orig, p.name@));
            }
            Type::FuncPtr {
                ret: Box::new(replaced_self(ret, p)),
                args: nargs,
                never_return: *never_return,
            }
        }
    }
}

impl Type {
    /// Rewrites every self-referential placeholder to the concrete receiver path.
    pub fn replace_self_with(&mut self, p: &Path)
        ensures
            final(self)@ == spec_replace_self(old(self)@, p.name@),
    {
        let n = replaced_self(self, p);
        *self = n;
    }
}

} // verus!

// The function intermediate representation and its annotation surface.

verus! {

/// One conditional-compilation guard: a conjunction of guard clauses.
#[derive(Debug)]
pub struct Cfg {
    pub clauses: Vec<String>,
}

impl Cfg {
    pub fn deep_clone(&self) -> (r: Cfg)
        ensures
            r.clauses@.map_values(|s: String| s@) == self.clauses@.map_values(|s: String| s@),
    {
        let mut cl: Vec<String> = Vec::new();
        let mut i: usize = 0;
        while i < self.clauses.len()
            invariant
                i <= self.clauses@.len(),
                cl@.len() == i,
                forall|j: int| 0 <= j < i ==> cl@[j]@ == self.clauses@[j]@,
            decreases self.clauses@.len() - i,
        {
            cl.push(self.clauses[i].clone());
            i = i + 1;
        }
        proof {
            assert(cl@.map_values(|s: String| s@) =~= self.clauses@.map_values(|s: String| s@));
        }
        Cfg { clauses: cl }
    }

    /// Combines an enclosing module's guard with an item's own; both hold.
    #[verifier::loop_isolation(false)]
    pub fn append(mod_cfg: Option<&Cfg>, cfg: Option<Cfg>) -> (r: Option<Cfg>)
        ensures
            mod_cfg is None && cfg is None ==> r is None,
            mod_cfg is Some && cfg is None ==> r is Some
                && r->0.clauses@.map_values(|s: String| s@)
                    == mod_cfg->0.clauses@.map_values(|s: String| s@),
            mod_cfg is None && cfg is Some ==> r is Some
                && r->0.clauses@.map_values(|s: String| s@)
                    == cfg->0.clauses@.map_values(|s: String| s@),
            mod_cfg is Some && cfg is Some ==> r is Some
                && r->0.clauses@.map_values(|s: String| s@)
                    == mod_cfg->0.clauses@.map_values(|s: String| s@)
                        + cfg->0.clauses@.map_values(|s: String| s@),
    {
        match (mod_cfg, cfg) {
            (Option::None, Option::None) => Option::None,
            (Option::Some(m), Option::None) => Option::Some(m.deep_clone()),
            (Option::None, Option::Some(c)) => Option::Some(c),
            (Option::Some(m), Option::Some(c)) => {
                let mut all = m.deep_clone();
                let mut rest = c.clauses;
                let ghost mv = m.clauses@.map_values(|s: String| s@);
                let ghost cv = rest@.map_values(|s: String| s@);
                let mut i: usize = 0;
                while i < rest.len()
                    invariant
                        i <= rest@.len(),
                        cv.len() == rest@.len(),
                        all.clauses@.len() == mv.len() + i,
                        forall|j: int| 0 <= j < mv.len() ==> (#[trigger] all.clauses@[j])@ == mv[j],
                        forall|j: int| 0 <= j < i ==> (#[trigger] all.clauses@[mv.len() + j])@
                            == cv[j],
                    decreases rest@.len() - i,
                {
                    let s = rest[i].clone();
                    all.clauses.push(s);
                    proof {
                        assert(cv[i as int] == rest@[i as int]@);
                    }
                    i = i + 1;
                }
                proof {
                    assert(all.clauses@.len() == mv.len() + cv.len());
                    assert forall|j: int| 0 <= j < mv.len() + cv.len() implies all.clauses@
                        .map_values(|s: String| s@)[j] == (mv + cv)[j] by {
                        if mv.len() <= j {
                            let k = j - mv.len();
                            assert((all.clauses@[mv.len() + k])@ == cv[k]);
                        }
                    }
                    assert(all.clauses@.map_values(|s: String| s@) =~= mv + cv);
                }
                Option::Some(all)
            }
        }
    }
}

/// The annotations a signature carries that this library consumes: an
/// argument naming rule, the pointer-as-array length pairs, and deprecation
/// text.
#[derive(Debug)]
pub struct AnnotationSet {
    pub rename_all: Option<crate::config::RenameRule>,
    pub ptrs_as_arrays: Option<Vec<String>>,
    pub deprecated: Option<String>,
}

pub ghost struct AnnotationSetV {
    pub rename_all: Option<RenameRule>,
    pub ptrs_as_arrays: Option<Seq<Seq<char>>>,
    pub deprecated: Option<Seq<char>>,
}

impl View for AnnotationSet {
    type V = AnnotationSetV;

    open spec fn view(&self) -> AnnotationSetV {
        AnnotationSetV {
            rename_all: self.rename_all,
            ptrs_as_arrays: match self.ptrs_as_arrays {
                Option::Some(v) => Option::Some(v@.map_values(|s: String| s@)),
                Option::None => Option::None,
            },
            deprecated: opt_str_view(self.deprecated),
        }
    }
}

/// Documentation attached to a signature, one line per entry.
#[derive(Debug)]
pub struct Documentation {
    pub lines: Vec<String>,
}

/// One loaded function argument: its name, its type, and the array-length
/// override set by a pointer-as-array annotation.
#[derive(Debug)]
pub struct FunctionArgument {
    pub name: Option<String>,
    pub ty: Type,
    pub array_length: Option<String>,
}

pub ghost struct FunctionArgumentV {
    pub name: Option<Seq<char>>,
    pub ty: TypeV,
    pub array_length: Option<Seq<char>>,
}

impl View for FunctionArgument {
    type V = FunctionArgumentV;

    open spec fn view(&self) -> FunctionArgumentV {
        FunctionArgumentV {
            name: opt_str_view(self.name),
            ty: self.ty@,
            array_length: opt_str_view(self.array_length),
        }
    }
}

pub open spec fn fargs_view(args: Seq<FunctionArgument>) -> Seq<FunctionArgumentV> {
    args.map_values(|a: FunctionArgument| a@)
}

/// A loaded function signature.
#[derive(Debug)]
pub struct Function {
    pub path: Path,
    /// Path to the self-type of the function: for a method, the path of the
    /// type whose method it is.
    pub self_type_path: Option<Path>,
    pub ret: Type,
    pub args: Vec<FunctionArgument>,
    pub extern_decl: bool,
    pub cfg: Option<Cfg>,
    pub annotations: AnnotationSet,
    pub documentation: Documentation,
    pub never_return: bool,
}

impl Function {
    /// An argument may carry an array-length override only when its type is a
    /// pointer; the synthesizer treats any other shape as a contract violation.
    pub open spec fn wf(&self) -> bool {
        forall|i: int| 0 <= i < self.args@.len()
            ==> (#[trigger] self.args@[i]).array_length is Some ==> self.args@[i].ty@ is Ptr
    }

    pub fn path(&self) -> (r: &Path)
        ensures
            r.name@ == self.path.name@,
    {
        &self.path
    }
}

} // verus!
