use vstd::prelude::*;

use crate::ir::AnnotationSet;
use crate::ir::Cfg;
use crate::ir::Documentation;
use crate::ir::Function;
use crate::ir::FunctionArgument;
use crate::ir::FunctionArgumentV;
use crate::ir::Path;
use crate::ir::Type;
use crate::ir::TypeV;
use crate::ir::fargs_view;
use crate::ir::opt_str_view;
use crate::ir::spec_replace_self;
use crate::text::string_eq_str;

verus! {

broadcast use vstd::std_specs::vec::group_vec_axioms, vstd::seq::group_seq_axioms;

/// How one raw parameter binds its value: an anonymous `_`, a plain
/// identifier, or a pattern this library does not accept.
#[derive(Debug)]
pub enum RawPattern {
    Wild,
    Ident(String),
    Unsupported,
}

/// One parameter of a raw callable signature, as the front end hands it over:
/// either a receiver with its reference and mutability flags and an optional
/// explicit type, or an ordinary typed parameter. A parameter whose type
/// resolved to nothing carries `None` and is skipped.
#[derive(Debug)]
pub enum RawParam {
    Receiver { reference: bool, mutable: bool, ty: Option<Type> },
    Typed { pattern: RawPattern, ty: Option<Type> },
}

/// A raw callable signature: its parameters, whether it ends in a variadic
/// marker, and its already-resolved return type with the never-returns flag.
#[derive(Debug)]
pub struct RawSignature {
    pub inputs: Vec<RawParam>,
    pub variadic: bool,
    pub ret: Type,
    pub never_return: bool,
}

/// The dedicated primitive standing for a trailing variadic argument list.
pub open spec fn is_va_list(t: TypeV) -> bool {
    t matches TypeV::Primitive { name } && name == "va_list"@
}

/// The receiver's type: the explicit override or the self placeholder, wrapped
/// in a pointer when the receiver is taken by reference — const exactly when
/// the reference is immutable, never nullable, never reference-flavored.
pub open spec fn spec_self_type(reference: bool, mutable: bool, ty: Option<TypeV>) -> TypeV {
    let self_ty = match ty {
        Option::Some(t) => t,
        Option::None => TypeV::Path {
            name: "Self"@,
            generics: Seq::empty(),
            ctype: Option::None,
        },
    };
    if !reference {
        self_ty
    } else {
        TypeV::Ptr {
            inner: Box::new(self_ty),
            is_const: !mutable,
            is_nullable: false,
            is_ref: false,
        }
    }
}

/// What loading one raw parameter yields: nothing for a skipped parameter, a
/// loaded argument, or an error for an unsupported pattern or an array-typed
/// parameter.
pub open spec fn spec_as_argument(p: RawParam) -> Result<Option<FunctionArgumentV>, Seq<char>> {
    match p {
        RawParam::Typed { pattern, ty } => match ty {
            Option::None => Result::Ok(Option::None),
            Option::Some(t) => {
                if pattern is Unsupported {
                    Result::Err("Parameter has an unsupported argument name"@)
                } else if t@ is Array {
                    Result::Err("Array as function arguments are not supported"@)
                } else {
                    let name = match pattern {
                        RawPattern::Wild => Option::<Seq<char>>::None,
                        RawPattern::Ident(s) => if is_va_list(t@) {
                            Option::None
                        } else {
                            Option::Some(s@)
                        },
                        RawPattern::Unsupported => Option::None,
                    };
                    Result::Ok(
                        Option::Some(
                            FunctionArgumentV { name, ty: t@, array_length: Option::None },
                        ),
                    )
                }
            },
        },
        RawParam::Receiver { reference, mutable, ty } => Result::Ok(
            Option::Some(
                FunctionArgumentV {
                    name: Option::Some("self"@),
                    ty: spec_self_type(reference, mutable, match ty {
                        Option::Some(t) => Option::Some(t@),
                        Option::None => Option::None,
                    }),
                    array_length: Option::None,
                },
            ),
        ),
    }
}

pub open spec fn arg_result_view(r: Result<Option<FunctionArgument>, String>) -> Result<
    Option<FunctionArgumentV>,
    Seq<char>,
> {
    match r {
        Result::Ok(Option::None) => Result::Ok(Option::None),
        Result::Ok(Option::Some(a)) => Result::Ok(Option::Some(a@)),
        Result::Err(e) => Result::Err(e@),
    }
}

/// The first error among the raw parameters, if any.
pub open spec fn first_arg_error(inputs: Seq<RawParam>) -> Option<Seq<char>>
    decreases inputs.len(),
{
    if inputs.len() == 0 {
        Option::None
    } else {
        match spec_as_argument(inputs[0]) {
            Result::Err(e) => Option::Some(e),
            Result::Ok(_) => first_arg_error(inputs.drop_first()),
        }
    }
}

/// The loaded arguments, skipped parameters left out; meaningful when no
/// parameter errs.
pub open spec fn loaded_args(inputs: Seq<RawParam>) -> Seq<FunctionArgumentV>
    decreases inputs.len(),
{
    if inputs.len() == 0 {
        Seq::empty()
    } else {
        match spec_as_argument(inputs[0]) {
            Result::Ok(Option::Some(a)) => seq![a] + loaded_args(inputs.drop_first()),
            _ => loaded_args(inputs.drop_first()),
        }
    }
}

/// The variadic-list argument appended for a trailing variadic marker.
pub open spec fn va_list_arg() -> FunctionArgumentV {
    FunctionArgumentV {
        name: Option::None,
        ty: TypeV::Primitive { name: "va_list"@ },
        array_length: Option::None,
    }
}

/// Self-placeholder substitution over every loaded argument.
pub open spec fn replace_self_args(args: Seq<FunctionArgumentV>, p: Seq<char>) -> Seq<
    FunctionArgumentV,
> {
    args.map_values(
        |a: FunctionArgumentV|
            FunctionArgumentV {
                name: a.name,
                ty: spec_replace_self(a.ty, p),
                array_length: a.array_length,
            },
    )
}

/// The arguments a signature loads to, before any rename pass.
pub open spec fn spec_loaded_args(sig: RawSignature, stp: Option<Seq<char>>) -> Seq<
    FunctionArgumentV,
> {
    let base = loaded_args(sig.inputs@) + (if sig.variadic {
        seq![va_list_arg()]
    } else {
        Seq::empty()
    });
    match stp {
        Option::Some(p) => replace_self_args(base, p),
        Option::None => base,
    }
}

fn exec_gen_self_type(reference: bool, mutable: bool, ty: &Option<Type>) -> (r: Type)
    ensures
        r@ == spec_self_type(reference, mutable, match *ty {
            Option::Some(t) => Option::Some(t@),
            Option::None => Option::None,
        }),
{
    let ghost tv: Option<TypeV> = match ty {
        Option::Some(t) => Option::Some(t@),
        Option::None => Option::None,
    };
    let self_ty = match ty {
        Option::Some(t) => t.deep_clone(),
        Option::None => Type::Path(
            crate::ir::GenericPath {
                name: "Self".to_owned(),
                generics: Vec::new(),
                ctype: Option::None,
            },
        ),
    };
    proof {
        crate::ir::lemma_gargs_view(Seq::<crate::ir::GenericArgument>::empty());
        assert(self_ty@ == (match tv {
            Option::Some(t) => t,
            Option::None => TypeV::Path {
                name: "Self"@,
                generics: Seq::empty(),
                ctype: Option::None,
            },
        }));
    }
    if !reference {
        self_ty
    } else {
        Type::Ptr {
            ty: Box::new(self_ty),
            is_const: !mutable,
            is_nullable: false,
            is_ref: false,
        }
    }
}

impl RawParam {
    /// Loads one raw parameter, as `spec_as_argument` describes.
    pub fn as_argument(&self) -> (r: Result<Option<FunctionArgument>, String>)
        ensures
            arg_result_view(r) == spec_as_argument(*self),
    {
        match self {
            RawParam::Typed { pattern, ty } => {
                let t = match ty {
                    Option::Some(t) => t,
                    Option::None => {
                        return Result::Ok(Option::None);
                    },
                };
                if matches!(pattern, RawPattern::Unsupported) {
                    return Result::Err("Parameter has an unsupported argument name".to_owned());
                }
                if matches!(t, Type::Array(..)) {
                    return Result::Err(
                        "Array as function arguments are not supported".to_owned(),
                    );
                }
                let name = match pattern {
                    RawPattern::Wild => Option::None,
                    RawPattern::Ident(s) => {
                        let is_va = match t {
                            Type::Primitive(n) => string_eq_str(n, "va_list"),
                            _ => false,
                        };
                        if is_va {
                            Option::None
                        } else {
                            Option::Some(s.clone())
                        }
                    },
                    RawPattern::Unsupported => Option::None,
                };
                Result::Ok(
                    Option::Some(
                        FunctionArgument {
                            name,
                            ty: t.deep_clone(),
                            array_length: Option::None,
                        },
                    ),
                )
            },
            RawParam::Receiver { reference, mutable, ty } => Result::Ok(
                Option::Some(
                    FunctionArgument {
                        name: Option::Some("self".to_owned()),
                        ty: exec_gen_self_type(*reference, *mutable, ty),
                        array_length: Option::None,
                    },
                ),
            ),
        }
    }
}

impl Function {
    /// Loads a raw signature into the function representation: each parameter
    /// is converted (the first failure aborts the load), a trailing variadic
    /// marker becomes a nameless variadic-list argument, and once the receiver
    /// type is known every self placeholder in arguments and return type is
    /// rewritten to the concrete receiver path.
    #[verifier::loop_isolation(false)]
    pub fn load(
        path: Path,
        self_type_path: Option<&Path>,
        sig: &RawSignature,
        extern_decl: bool,
        annotations: AnnotationSet,
        documentation: Documentation,
        fn_cfg: Option<Cfg>,
        mod_cfg: Option<&Cfg>,
    ) -> (r: Result<Function, String>)
        ensures
            r is Err <==> first_arg_error(sig.inputs@) is Some,
            r is Err ==> r->Err_0@ == first_arg_error(sig.inputs@)->0,
            r is Ok ==> {
                let f = r->Ok_0;
                let stp: Option<Seq<char>> = match self_type_path {
                    Option::Some(p) => Option::Some(p.name@),
                    Option::None => Option::None,
                };
                &&& f.path.name@ == path.name@
                &&& (f.self_type_path is Some <==> self_type_path is Some)
                &&& (f.self_type_path is Some ==> f.self_type_path->0.name@
                    == self_type_path->0.name@)
                &&& fargs_view(f.args@) == spec_loaded_args(*sig, stp)
                &&& f.ret@ == (match stp {
                    Option::Some(p) => spec_replace_self(sig.ret@, p),
                    Option::None => sig.ret@,
                })
                &&& f.extern_decl == extern_decl
                &&& f.never_return == sig.never_return
                &&& f.annotations == annotations
            },
    {
        let n = sig.inputs.len();
        let mut args: Vec<FunctionArgument> = Vec::new();
        let mut i: usize = 0;
        proof {
            assert(sig.inputs@.subrange(0, n as int) =~= sig.inputs@);
            assert(fargs_view(args@) + loaded_args(sig.inputs@.subrange(0, n as int))
                =~= loaded_args(sig.inputs@));
        }
        while i < n
            invariant
                i <= n,
                n == sig.inputs@.len(),
                fargs_view(args@) + loaded_args(sig.inputs@.subrange(i as int, n as int))
                    =~= loaded_args(sig.inputs@),
                first_arg_error(sig.inputs@.subrange(i as int, n as int)) == first_arg_error(
                    sig.inputs@,
                ),
            decreases n - i,
        {
            proof {
                assert(sig.inputs@.subrange(i as int, n as int)[0] == sig.inputs@[i as int]);
                assert(sig.inputs@.subrange(i as int, n as int).drop_first() =~= sig.inputs@
                    .subrange(i + 1, n as int));
            }
            match sig.inputs[i].as_argument() {
                Result::Err(e) => {
                    return Result::Err(e);
                },
                Result::Ok(Option::None) => {},
                Result::Ok(Option::Some(a)) => {
                    let ghost prev = args@;
                    args.push(a);
                    proof {
                        assert(fargs_view(args@) =~= fargs_view(prev).push(a@));
                        assert(fargs_view(args@) + loaded_args(
                            sig.inputs@.subrange(i + 1, n as int),
                        ) =~= fargs_view(prev) + loaded_args(
                            sig.inputs@.subrange(i as int, n as int),
                        ));
                    }
                },
            }
            i = i + 1;
        }
        proof {
            assert(sig.inputs@.subrange(n as int, n as int).len() == 0);
            assert(fargs_view(args@) =~= loaded_args(sig.inputs@));
        }
        if sig.variadic {
            let ghost prev = args@;
            args.push(
                FunctionArgument {
                    name: Option::None,
                    ty: Type::Primitive("va_list".to_owned()),
                    array_length: Option::None,
                },
            );
            proof {
                assert(fargs_view(args@) =~= fargs_view(prev).push(va_list_arg()));
                assert(fargs_view(args@) =~= loaded_args(sig.inputs@) + seq![va_list_arg()]);
            }
        } else {
            proof {
                assert(fargs_view(args@) =~= loaded_args(sig.inputs@) + Seq::<
                    FunctionArgumentV,
                >::empty());
            }
        }
        let ghost base = fargs_view(args@);
        let mut ret = sig.ret.deep_clone();
        let stp: Option<Path> = match self_type_path {
            Option::Some(sp) => {
                let m = args.len();
                let mut replaced: Vec<FunctionArgument> = Vec::new();
                let mut k: usize = 0;
                while k < m
                    invariant
                        k <= m,
                        m == args@.len(),
                        base == fargs_view(args@),
                        replaced@.len() == k,
                        forall|j: int| 0 <= j < k ==> (#[trigger] replaced@[j])@
                            == replace_self_args(base, sp.name@)[j],
                    decreases m - k,
                {
                    let arg = &args[k];
                    let name = match &arg.name {
                        Option::Some(s) => Option::Some(s.clone()),
                        Option::None => Option::None,
                    };
                    let alen = match &arg.array_length {
                        Option::Some(s) => Option::Some(s.clone()),
                        Option::None => Option::None,
                    };
                    let mut ty = arg.ty.deep_clone();
                    ty.replace_self_with(sp);
                    replaced.push(FunctionArgument { name, ty, array_length: alen });
                    proof {
                        assert(base[k as int] == args@[k as int]@);
                    }
                    k = k + 1;
                }
                proof {
                    assert(fargs_view(replaced@) =~= replace_self_args(base, sp.name@));
                }
                args = replaced;
                ret.replace_self_with(sp);
                Option::Some(sp.deep_clone())
            },
            Option::None => Option::None,
        };
        Result::Ok(
            Function {
                path,
                self_type_path: stp,
                ret,
                args,
                extern_decl,
                cfg: Cfg::append(mod_cfg, fn_cfg),
                annotations,
                documentation,
                never_return: sig.never_return,
            },
        )
    }
}

} // verus!
