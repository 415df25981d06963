use vstd::prelude::*;

use crate::config::Config;
use crate::config::Language;
use crate::config::RenameRule;
use crate::config::spec_apply_rule;
use crate::ir::Function;
use crate::ir::FunctionArgument;
use crate::ir::FunctionArgumentV;
use crate::ir::Type;
use crate::ir::TypeV;
use crate::ir::fargs_view;
use crate::ir::opt_str_view;
use crate::text::spec_starts_with;
use crate::text::str_starts_with;
use crate::text::string_eq_str;

verus! {

broadcast use vstd::std_specs::vec::group_vec_axioms, vstd::seq::group_seq_axioms;

/// The reserved words of the output languages; an argument so named must be
/// escaped.
pub open spec fn is_reserved_spec(s: Seq<char>) -> bool {
    ||| s == "auto"@
    ||| s == "break"@
    ||| s == "case"@
    ||| s == "char"@
    ||| s == "class"@
    ||| s == "const"@
    ||| s == "continue"@
    ||| s == "default"@
    ||| s == "delete"@
    ||| s == "do"@
    ||| s == "double"@
    ||| s == "else"@
    ||| s == "enum"@
    ||| s == "extern"@
    ||| s == "float"@
    ||| s == "for"@
    ||| s == "goto"@
    ||| s == "if"@
    ||| s == "inline"@
    ||| s == "int"@
    ||| s == "long"@
    ||| s == "namespace"@
    ||| s == "new"@
    ||| s == "operator"@
    ||| s == "register"@
    ||| s == "restrict"@
    ||| s == "return"@
    ||| s == "short"@
    ||| s == "signed"@
    ||| s == "sizeof"@
    ||| s == "static"@
    ||| s == "struct"@
    ||| s == "switch"@
    ||| s == "template"@
    ||| s == "typedef"@
    ||| s == "typename"@
    ||| s == "union"@
    ||| s == "unsigned"@
    ||| s == "virtual"@
    ||| s == "void"@
    ||| s == "volatile"@
    ||| s == "while"@
}

pub fn is_reserved(name: &String) -> (r: bool)
    ensures
        r == is_reserved_spec(name@),
{
    string_eq_str(name, "auto") || string_eq_str(name, "break") || string_eq_str(name, "case")
        || string_eq_str(name, "char") || string_eq_str(name, "class") || string_eq_str(
        name,
        "const",
    ) || string_eq_str(name, "continue") || string_eq_str(name, "default") || string_eq_str(
        name,
        "delete",
    ) || string_eq_str(name, "do") || string_eq_str(name, "double") || string_eq_str(name, "else")
        || string_eq_str(name, "enum") || string_eq_str(name, "extern") || string_eq_str(
        name,
        "float",
    ) || string_eq_str(name, "for") || string_eq_str(name, "goto") || string_eq_str(name, "if")
        || string_eq_str(name, "inline") || string_eq_str(name, "int") || string_eq_str(
        name,
        "long",
    ) || string_eq_str(name, "namespace") || string_eq_str(name, "new") || string_eq_str(
        name,
        "operator",
    ) || string_eq_str(name, "register") || string_eq_str(name, "restrict") || string_eq_str(
        name,
        "return",
    ) || string_eq_str(name, "short") || string_eq_str(name, "signed") || string_eq_str(
        name,
        "sizeof",
    ) || string_eq_str(name, "static") || string_eq_str(name, "struct") || string_eq_str(
        name,
        "switch",
    ) || string_eq_str(name, "template") || string_eq_str(name, "typedef") || string_eq_str(
        name,
        "typename",
    ) || string_eq_str(name, "union") || string_eq_str(name, "unsigned") || string_eq_str(
        name,
        "virtual",
    ) || string_eq_str(name, "void") || string_eq_str(name, "volatile") || string_eq_str(
        name,
        "while",
    )
}

/// A reserved name gets an underscore appended; any other name is kept.
pub open spec fn escaped(s: Seq<char>) -> Seq<char> {
    if is_reserved_spec(s) {
        s + "_"@
    } else {
        s
    }
}

/// Escapes a reserved name in place.
pub fn escape(name: &mut String)
    ensures
        final(name)@ == escaped(old(name)@),
{
    if is_reserved(name) {
        name.append("_");
        proof {
            assert(name@ =~= old(name)@ + "_"@);
        }
    }
}

/// The rename pass over one argument: the rule applied to its name, and its
/// array-length override cleared.
pub open spec fn renamed_arg(a: FunctionArgumentV, rule: RenameRule) -> FunctionArgumentV {
    FunctionArgumentV {
        name: match a.name {
            Option::Some(n) => Option::Some(spec_apply_rule(rule, n)),
            Option::None => Option::None,
        },
        ty: a.ty,
        array_length: Option::None,
    }
}

/// Keyword escaping over one argument's name.
pub open spec fn escaped_arg(a: FunctionArgumentV) -> FunctionArgumentV {
    FunctionArgumentV {
        name: match a.name {
            Option::Some(n) => Option::Some(escaped(n)),
            Option::None => Option::None,
        },
        ty: a.ty,
        array_length: a.array_length,
    }
}

/// Whitespace as the annotation parser strips it.
pub open spec fn is_space(c: char) -> bool {
    c == ' ' || c == '\t' || c == '\n' || c == '\r'
}

fn space_char(c: char) -> (r: bool)
    ensures
        r == is_space(c),
{
    c == ' ' || c == '\t' || c == '\n' || c == '\r'
}

pub open spec fn trim_front(s: Seq<char>) -> Seq<char>
    decreases s.len(),
{
    if s.len() > 0 && is_space(s[0]) {
        trim_front(s.drop_first())
    } else {
        s
    }
}

pub open spec fn trim_back(s: Seq<char>) -> Seq<char>
    decreases s.len(),
{
    if s.len() > 0 && is_space(s.last()) {
        trim_back(s.drop_last())
    } else {
        s
    }
}

pub open spec fn trim_ws(s: Seq<char>) -> Seq<char> {
    trim_back(trim_front(s))
}

pub open spec fn count_char(s: Seq<char>, c: char) -> nat
    decreases s.len(),
{
    if s.len() == 0 {
        0
    } else {
        count_char(s.drop_first(), c) + (if s[0] == c {
            1nat
        } else {
            0nat
        })
    }
}

pub open spec fn first_pos(s: Seq<char>, c: char) -> nat
    decreases s.len(),
{
    if s.len() == 0 {
        0
    } else if s[0] == c {
        0
    } else {
        1 + first_pos(s.drop_first(), c)
    }
}

/// Parsing one pointer-as-array annotation entry: the surrounding delimiters
/// are stripped, the rest must split on exactly one semicolon, and both parts
/// are trimmed. Anything else is malformed.
pub open spec fn spec_parse_pair(s: Seq<char>) -> Option<(Seq<char>, Seq<char>)> {
    if s.len() < 2 {
        Option::None
    } else {
        let inner = s.subrange(1, s.len() - 1);
        if count_char(inner, ';') != 1 {
            Option::None
        } else {
            let k = first_pos(inner, ';') as int;
            Option::Some(
                (
                    trim_ws(inner.subrange(0, k)),
                    trim_ws(inner.subrange(k + 1, inner.len() as int)),
                ),
            )
        }
    }
}

/// The name-to-length mapping the well-formed entries build up; a later entry
/// for the same name wins.
pub open spec fn lookup_length(entries: Seq<Seq<char>>, name: Seq<char>) -> Option<Seq<char>>
    decreases entries.len(),
{
    if entries.len() == 0 {
        Option::None
    } else {
        match spec_parse_pair(entries.last()) {
            Option::Some(p) => if p.0 == name {
                Option::Some(p.1)
            } else {
                lookup_length(entries.drop_last(), name)
            },
            Option::None => lookup_length(entries.drop_last(), name),
        }
    }
}

/// The malformed entries, in order: each is reported as a warning and skipped.
pub open spec fn malformed_entries(entries: Seq<Seq<char>>) -> Seq<Seq<char>>
    decreases entries.len(),
{
    if entries.len() == 0 {
        Seq::empty()
    } else {
        (if spec_parse_pair(entries[0]) is None {
            seq![entries[0]]
        } else {
            Seq::<Seq<char>>::empty()
        }) + malformed_entries(entries.drop_first())
    }
}

/// The pointer-as-array pass over one argument: a pointer-typed, named
/// argument takes the length recorded for its name; any other argument is
/// untouched.
pub open spec fn lengthed_arg(a: FunctionArgumentV, entries: Seq<Seq<char>>) -> FunctionArgumentV {
    if a.ty is Ptr && a.name is Some {
        FunctionArgumentV {
            name: a.name,
            ty: a.ty,
            array_length: lookup_length(entries, a.name->0),
        }
    } else {
        a
    }
}

/// What the whole rename pass does to the argument list.
pub open spec fn spec_renamed_args(
    args: Seq<FunctionArgumentV>,
    rule: RenameRule,
    entries: Option<Seq<Seq<char>>>,
) -> Seq<FunctionArgumentV> {
    let after_rule = if rule is Unchanged {
        args
    } else {
        args.map_values(|a: FunctionArgumentV| renamed_arg(a, rule))
    };
    let after_escape = after_rule.map_values(|a: FunctionArgumentV| escaped_arg(a));
    match entries {
        Option::Some(es) => after_escape.map_values(|a: FunctionArgumentV| lengthed_arg(a, es)),
        Option::None => after_escape,
    }
}

fn trim_exec(s: &str) -> (r: String)
    ensures
        r@ == trim_ws(s@),
{
    let n = s.unicode_len();
    let mut a: usize = 0;
    proof {
        assert(s@.subrange(0, n as int) =~= s@);
    }
    while a < n && space_char(s.get_char(a))
        invariant
            a <= n,
            n == s@.len(),
            trim_front(s@) == trim_front(s@.subrange(a as int, n as int)),
            forall|j: int| 0 <= j < a ==> is_space(s@[j]),
        decreases n - a,
    {
        proof {
            assert(s@.subrange(a as int, n as int).drop_first() =~= s@.subrange(a + 1, n as int));
        }
        a = a + 1;
    }
    proof {
        assert(trim_front(s@.subrange(a as int, n as int)) == s@.subrange(a as int, n as int));
    }
    let mut b: usize = n;
    while b > a && space_char(s.get_char(b - 1))
        invariant
            a <= b <= n,
            n == s@.len(),
            trim_back(s@.subrange(a as int, n as int)) == trim_back(
                s@.subrange(a as int, b as int),
            ),
        decreases b,
    {
        proof {
            assert(s@.subrange(a as int, b as int).drop_last() =~= s@.subrange(
                a as int,
                b - 1,
            ));
        }
        b = b - 1;
    }
    proof {
        if b > a {
            assert(!is_space(s@.subrange(a as int, b as int).last()));
        }
        assert(trim_back(s@.subrange(a as int, b as int)) == s@.subrange(a as int, b as int));
    }
    let r = s.substring_char(a, b).to_owned();
    proof {
        assert(r@ == trim_ws(s@));
    }
    r
}

/// Parses one annotation entry; the malformed ones yield nothing.
#[verifier::loop_isolation(false)]
fn parse_pair(s: &String) -> (r: Option<(String, String)>)
    ensures
        r is Some <==> spec_parse_pair(s@) is Some,
        r is Some ==> ((r->0).0@, (r->0).1@) == spec_parse_pair(s@)->0,
{
    let n = s.as_str().unicode_len();
    if n < 2 {
        return Option::None;
    }
    let ghost inner = s@.subrange(1, s@.len() - 1);
    let mut semis: usize = 0;
    let mut k: usize = n - 2;
    let mut i: usize = 1;
    while i < n - 1
        invariant
            1 <= i <= n - 1,
            n == s@.len(),
            2 <= n,
            semis <= i - 1,
            semis as nat == count_char(s@.subrange(1, i as int), ';'),
            semis > 0 ==> k < i - 1 && s@[k + 1] == ';' && k as nat + 1 == 1 + first_pos(
                s@.subrange(1, i as int),
                ';',
            ),
            semis == 0 ==> k == n - 2,
        decreases n - i,
    {
        let c = s.as_str().get_char(i);
        proof {
            lemma_count_snoc(s@.subrange(1, i + 1), ';');
            lemma_first_pos_snoc(s@.subrange(1, i + 1), ';');
            assert(s@.subrange(1, i + 1).drop_last() =~= s@.subrange(1, i as int));
            assert(s@.subrange(1, i + 1).last() == s@[i as int]);
        }
        if c == ';' {
            if semis == 0 {
                k = i - 1;
            }
            semis = semis + 1;
        }
        i = i + 1;
    }
    proof {
        assert(s@.subrange(1, n - 1) =~= inner);
    }
    if semis != 1 {
        return Option::None;
    }
    proof {
        assert(count_char(inner, ';') == 1);
        assert(first_pos(inner, ';') == k as nat);
        assert(inner.subrange(0, k as int) =~= s@.subrange(1, k + 1));
        assert(inner.subrange(k + 1, inner.len() as int) =~= s@.subrange(k + 2, n - 1));
    }
    let left = s.as_str().substring_char(1, k + 1);
    let right = s.as_str().substring_char(k + 2, n - 1);
    Option::Some((trim_exec(left), trim_exec(right)))
}

proof fn lemma_count_snoc(s: Seq<char>, c: char)
    requires
        s.len() > 0,
    ensures
        count_char(s, c) == count_char(s.drop_last(), c) + (if s.last() == c {
            1nat
        } else {
            0nat
        }),
    decreases s.len(),
{
    if s.len() == 1 {
        assert(s.drop_first() =~= Seq::<char>::empty());
        assert(s.drop_last() =~= Seq::<char>::empty());
    } else {
        lemma_count_snoc(s.drop_first(), c);
        assert(s.drop_first().drop_last() =~= s.drop_last().drop_first());
        assert(s.drop_first().last() == s.last());
        assert(s.drop_last()[0] == s[0]);
    }
}

proof fn lemma_first_pos_snoc(s: Seq<char>, c: char)
    requires
        s.len() > 0,
    ensures
        count_char(s.drop_last(), c) > 0 ==> first_pos(s, c) == first_pos(s.drop_last(), c),
        count_char(s.drop_last(), c) == 0 && s.last() == c ==> first_pos(s, c) == s.len() - 1,
        count_char(s, c) == 0 ==> first_pos(s, c) == s.len(),
    decreases s.len(),
{
    if s.len() == 1 {
        assert(s.drop_first() =~= Seq::<char>::empty());
        assert(s.drop_last() =~= Seq::<char>::empty());
        assert(count_char(s.drop_first(), c) == 0);
        assert(first_pos(s.drop_first(), c) == 0);
        if count_char(s, c) == 0 {
            assert(s[0] != c);
            assert(first_pos(s, c) == 1);
        }
    } else {
        lemma_first_pos_snoc(s.drop_first(), c);
        assert(s.drop_first().drop_last() =~= s.drop_last().drop_first());
        assert(s.drop_first().last() == s.last());
        assert(s.drop_last()[0] == s[0]);
        if count_char(s, c) == 0 {
            assert(count_char(s.drop_first(), c) == 0);
            assert(s[0] != c);
            assert(first_pos(s.drop_first(), c) == s.drop_first().len());
            assert(first_pos(s, c) == s.len());
        }
    }
}

impl Function {
    /// Renames the arguments for output: the signature's own naming rule (or
    /// the configured default) is applied to every argument name — which also
    /// clears every array-length override — then reserved keywords are
    /// escaped, and finally the pointer-as-array annotation entries assign
    /// length overrides to the pointer-typed named arguments. The malformed
    /// entries are returned, in order, as warnings.
    #[verifier::loop_isolation(false)]
    pub fn rename_for_config(&mut self, config: &Config) -> (warnings: Vec<String>)
        ensures
            ({
                let rule = match old(self).annotations.rename_all {
                    Option::Some(r) => r,
                    Option::None => config.function.rename_args,
                };
                let entries = old(self).annotations@.ptrs_as_arrays;
                &&& fargs_view(final(self).args@) == spec_renamed_args(
                    fargs_view(old(self).args@),
                    rule,
                    entries,
                )
                &&& warnings@.map_values(|s: String| s@) == (match entries {
                    Option::Some(es) => malformed_entries(es),
                    Option::None => Seq::<Seq<char>>::empty(),
                })
                &&& final(self).path.name@ == old(self).path.name@
                &&& final(self).self_type_path == old(self).self_type_path
                &&& final(self).ret@ == old(self).ret@
                &&& final(self).cfg == old(self).cfg
                &&& final(self).annotations == old(self).annotations
                &&& final(self).documentation == old(self).documentation
                &&& final(self).never_return == old(self).never_return
                &&& final(self).extern_decl == old(self).extern_decl
            }),
    {
        let rule = match &self.annotations.rename_all {
            Option::Some(r) => *r,
            Option::None => config.function.rename_args,
        };
        let ghost args0 = fargs_view(self.args@);
        if !rule.is_unchanged() {
            let m = self.args.len();
            let mut renamed: Vec<FunctionArgument> = Vec::new();
            let mut k: usize = 0;
            while k < m
                invariant
                    k <= m,
                    m == self.args@.len(),
                    args0 == fargs_view(self.args@),
                    renamed@.len() == k,
                    forall|j: int| 0 <= j < k ==> (#[trigger] renamed@[j])@ == renamed_arg(
                        args0[j],
                        rule,
                    ),
                decreases m - k,
            {
                let arg = &self.args[k];
                let name = match &arg.name {
                    Option::Some(n) => Option::Some(rule.apply(n.as_str())),
                    Option::None => Option::None,
                };
                let ty = arg.ty.deep_clone();
                renamed.push(FunctionArgument { name, ty, array_length: Option::None });
                proof {
                    assert(args0[k as int] == self.args@[k as int]@);
                }
                k = k + 1;
            }
            proof {
                assert(fargs_view(renamed@) =~= args0.map_values(
                    |a: FunctionArgumentV| renamed_arg(a, rule),
                ));
            }
            self.args = renamed;
        }
        let ghost after_rule = fargs_view(self.args@);
        {
            let m = self.args.len();
            let mut esc: Vec<FunctionArgument> = Vec::new();
            let mut k: usize = 0;
            while k < m
                invariant
                    k <= m,
                    m == self.args@.len(),
                    after_rule == fargs_view(self.args@),
                    esc@.len() == k,
                    forall|j: int| 0 <= j < k ==> (#[trigger] esc@[j])@ == escaped_arg(
                        after_rule[j],
                    ),
                decreases m - k,
            {
                let arg = &self.args[k];
                let name = match &arg.name {
                    Option::Some(n) => {
                        let mut nn = n.clone();
                        escape(&mut nn);
                        Option::Some(nn)
                    },
                    Option::None => Option::None,
                };
                let ty = arg.ty.deep_clone();
                let alen = match &arg.array_length {
                    Option::Some(l) => Option::Some(l.clone()),
                    Option::None => Option::None,
                };
                esc.push(FunctionArgument { name, ty, array_length: alen });
                proof {
                    assert(after_rule[k as int] == self.args@[k as int]@);
                }
                k = k + 1;
            }
            proof {
                assert(fargs_view(esc@) =~= after_rule.map_values(
                    |a: FunctionArgumentV| escaped_arg(a),
                ));
            }
            self.args = esc;
        }
        let ghost after_escape = fargs_view(self.args@);
        let mut warnings: Vec<String> = Vec::new();
        if let Option::Some(tuples) = &self.annotations.ptrs_as_arrays {
            let ghost es = tuples@.map_values(|s: String| s@);
            let tn = tuples.len();
            let mut w: usize = 0;
            while w < tn
                invariant
                    w <= tn,
                    tn == tuples@.len(),
                    es == tuples@.map_values(|s: String| s@),
                    warnings@.map_values(|s: String| s@) =~= malformed_entries(
                        es.subrange(0, w as int),
                    ),
                decreases tn - w,
            {
                proof {
                    assert(es[w as int] == tuples@[w as int]@);
                    lemma_malformed_snoc(es.subrange(0, w + 1));
                    assert(es.subrange(0, w + 1).drop_last() =~= es.subrange(0, w as int));
                    assert(es.subrange(0, w + 1).last() == es[w as int]);
                }
                match parse_pair(&tuples[w]) {
                    Option::Some(_) => {},
                    Option::None => {
                        let ghost prevw = warnings@;
                        warnings.push(tuples[w].clone());
                        proof {
                            assert(warnings@.map_values(|s: String| s@) =~= prevw.map_values(
                                |s: String| s@,
                            ).push(es[w as int]));
                        }
                    },
                }
                w = w + 1;
            }
            proof {
                assert(es.subrange(0, tn as int) =~= es);
            }
            let m = self.args.len();
            let mut withlen: Vec<FunctionArgument> = Vec::new();
            let mut k: usize = 0;
            while k < m
                invariant
                    k <= m,
                    m == self.args@.len(),
                    after_escape == fargs_view(self.args@),
                    es == tuples@.map_values(|s: String| s@),
                    tn == tuples@.len(),
                    withlen@.len() == k,
                    forall|j: int| 0 <= j < k ==> (#[trigger] withlen@[j])@ == lengthed_arg(
                        after_escape[j],
                        es,
                    ),
                decreases m - k,
            {
                let arg = &self.args[k];
                let is_ptr = matches!(&arg.ty, Type::Ptr { .. });
                let name = match &arg.name {
                    Option::Some(n) => Option::Some(n.clone()),
                    Option::None => Option::None,
                };
                let alen: Option<String> = if is_ptr {
                    match &arg.name {
                        Option::Some(n) => lookup_exec(tuples, n),
                        Option::None => match &arg.array_length {
                            Option::Some(l) => Option::Some(l.clone()),
                            Option::None => Option::None,
                        },
                    }
                } else {
                    match &arg.array_length {
                        Option::Some(l) => Option::Some(l.clone()),
                        Option::None => Option::None,
                    }
                };
                let ty = arg.ty.deep_clone();
                withlen.push(FunctionArgument { name, ty, array_length: alen });
                proof {
                    assert(after_escape[k as int] == self.args@[k as int]@);
                }
                k = k + 1;
            }
            proof {
                assert(fargs_view(withlen@) =~= after_escape.map_values(
                    |a: FunctionArgumentV| lengthed_arg(a, es),
                ));
            }
            self.args = withlen;
        }
        warnings
    }
}

proof fn lemma_malformed_snoc(es: Seq<Seq<char>>)
    requires
        es.len() > 0,
    ensures
        malformed_entries(es) == malformed_entries(es.drop_last()) + (
        if spec_parse_pair(es.last()) is None {
            seq![es.last()]
        } else {
            Seq::<Seq<char>>::empty()
        }),
    decreases es.len(),
{
    if es.len() == 1 {
        assert(es.drop_first() =~= Seq::<Seq<char>>::empty());
        assert(es.drop_last() =~= Seq::<Seq<char>>::empty());
        assert(malformed_entries(es) =~= malformed_entries(es.drop_last()) + (
        if spec_parse_pair(es.last()) is None {
            seq![es.last()]
        } else {
            Seq::<Seq<char>>::empty()
        }));
    } else {
        lemma_malformed_snoc(es.drop_first());
        assert(es.drop_first().drop_last() =~= es.drop_last().drop_first());
        assert(es.drop_first().last() == es.last());
        assert(es.drop_last()[0] == es[0]);
        assert(malformed_entries(es) =~= malformed_entries(es.drop_last()) + (
        if spec_parse_pair(es.last()) is None {
            seq![es.last()]
        } else {
            Seq::<Seq<char>>::empty()
        }));
    }
}

/// Finds the length recorded for a name, the last well-formed entry winning.
#[verifier::loop_isolation(false)]
fn lookup_exec(tuples: &Vec<String>, name: &String) -> (r: Option<String>)
    ensures
        opt_str_view(r) == lookup_length(tuples@.map_values(|s: String| s@), name@),
{
    let ghost es = tuples@.map_values(|s: String| s@);
    let mut i: usize = tuples.len();
    proof {
        assert(es.subrange(0, i as int) =~= es);
    }
    while i > 0
        invariant
            i <= tuples@.len(),
            es == tuples@.map_values(|s: String| s@),
            lookup_length(es, name@) == lookup_length(es.subrange(0, i as int), name@),
        decreases i,
    {
        let j = i - 1;
        proof {
            assert(es.subrange(0, i as int).drop_last() =~= es.subrange(0, j as int));
            assert(es.subrange(0, i as int).last() == es[j as int]);
            assert(es[j as int] == tuples@[j as int]@);
        }
        match parse_pair(&tuples[j]) {
            Option::Some(p) => {
                if string_eq_str(&p.0, name.as_str()) {
                    return Option::Some(p.1);
                }
            },
            Option::None => {},
        }
        i = j;
    }
    proof {
        assert(es.subrange(0, 0) =~= Seq::<Seq<char>>::empty());
    }
    Option::None
}

} // verus!

// The secondary naming derivation for the dialect that uses it.

verus! {

/// Repeatedly strips a leading occurrence of `p`; an empty prefix strips
/// nothing.
pub open spec fn trim_prefix_all(s: Seq<char>, p: Seq<char>) -> Seq<char>
    decreases s.len(),
{
    if p.len() > 0 && spec_starts_with(s, p) {
        trim_prefix_all(s.subrange(p.len() as int, s.len() as int), p)
    } else {
        s
    }
}

/// Strips every leading underscore.
pub open spec fn trim_underscores(s: Seq<char>) -> Seq<char>
    decreases s.len(),
{
    if s.len() > 0 && s[0] == '_' {
        trim_underscores(s.drop_first())
    } else {
        s
    }
}

/// The colon-terminated argument-name list, or nothing when any argument is
/// unnamed.
pub open spec fn swift_item_args(args: Seq<FunctionArgumentV>) -> Option<Seq<char>>
    decreases args.len(),
{
    if args.len() == 0 {
        Option::Some(Seq::<char>::empty())
    } else {
        match args[0].name {
            Option::None => Option::None,
            Option::Some(n) => match swift_item_args(args.drop_first()) {
                Option::None => Option::None,
                Option::Some(rest) => Option::Some(n + ":"@ + rest),
            },
        }
    }
}

/// The dotted label: nothing for the attribute-free dialect; the bare path
/// when a method's name does not begin with its type's name; otherwise the
/// type name, a dot, the method name with the redundant type-name prefix and
/// leading separators stripped, and the argument names.
pub open spec fn spec_swift_name(
    pname: Seq<char>,
    stp: Option<Seq<char>>,
    args: Seq<FunctionArgumentV>,
    cfg: Config,
) -> Option<Seq<char>> {
    if cfg.language is Cython {
        Option::None
    } else {
        let tname: Seq<char> = match stp {
            Option::Some(t) => t,
            Option::None => Seq::empty(),
        };
        if stp is Some && !spec_starts_with(pname, tname) {
            Option::Some(pname)
        } else {
            let prefix: Seq<char> = if stp is Some {
                tname + "."@
            } else {
                Seq::empty()
            };
            let item = trim_underscores(trim_prefix_all(pname, tname));
            match swift_item_args(args) {
                Option::None => Option::None,
                Option::Some(ia) => Option::Some(prefix + item + "("@ + ia + ")"@),
            }
        }
    }
}

impl Function {
    /// Derives the dotted label for the dialect that associates a method with
    /// its type by name.
    #[verifier::loop_isolation(false)]
    pub fn swift_name(&self, config: &Config) -> (r: Option<String>)
        ensures
            opt_str_view(r) == spec_swift_name(
                self.path.name@,
                match self.self_type_path {
                    Option::Some(p) => Option::Some(p.name@),
                    Option::None => Option::None,
                },
                fargs_view(self.args@),
                *config,
            ),
    {
        if matches!(config.language, Language::Cython) {
            return Option::None;
        }
        let tname: String = match &self.self_type_path {
            Option::Some(t) => t.name.clone(),
            Option::None => String::new(),
        };
        if self.self_type_path.is_some() && !str_starts_with(
            self.path.name.as_str(),
            tname.as_str(),
        ) {
            return Option::Some(self.path.name.clone());
        }
        let mut item: String = self.path.name.clone();
        let pn = tname.as_str().unicode_len();
        if pn > 0 {
            while item.as_str().unicode_len() >= pn && str_starts_with(
                item.as_str(),
                tname.as_str(),
            ) && pn > 0
                invariant
                    pn == tname@.len(),
                    pn > 0,
                    trim_prefix_all(item@, tname@) == trim_prefix_all(
                        self.path.name@,
                        tname@,
                    ),
                decreases item@.len(),
            {
                let ln = item.as_str().unicode_len();
                let rest = item.as_str().substring_char(pn, ln).to_owned();
                proof {
                    assert(rest@ =~= item@.subrange(pn as int, item@.len() as int));
                }
                item = rest;
            }
            proof {
                assert(trim_prefix_all(item@, tname@) == item@);
            }
        } else {
            proof {
                assert(trim_prefix_all(item@, tname@) == item@);
            }
        }
        while item.as_str().unicode_len() > 0 && item.as_str().get_char(0) == '_'
            invariant
                trim_underscores(item@) == trim_underscores(
                    trim_prefix_all(self.path.name@, tname@),
                ),
            decreases item@.len(),
        {
            let ln = item.as_str().unicode_len();
            let rest = item.as_str().substring_char(1, ln).to_owned();
            proof {
                assert(rest@ =~= item@.drop_first());
            }
            item = rest;
        }
        proof {
            assert(trim_underscores(item@) == item@);
        }
        let ghost argsv = fargs_view(self.args@);
        let mut ia = String::new();
        let n = self.args.len();
        let mut i: usize = 0;
        proof {
            assert(argsv.subrange(0, n as int) =~= argsv);
        }
        while i < n
            invariant
                i <= n,
                n == self.args@.len(),
                argsv == fargs_view(self.args@),
                swift_item_args(argsv) is Some <==> swift_item_args(
                    argsv.subrange(i as int, n as int),
                ) is Some,
                swift_item_args(argsv) is Some ==> swift_item_args(argsv)->0 == ia@
                    + swift_item_args(argsv.subrange(i as int, n as int))->0,
            decreases n - i,
        {
            proof {
                assert(argsv[i as int] == self.args@[i as int]@);
                assert(argsv.subrange(i as int, n as int)[0] == argsv[i as int]);
                assert(argsv.subrange(i as int, n as int).drop_first() =~= argsv.subrange(
                    i + 1,
                    n as int,
                ));
            }
            match &self.args[i].name {
                Option::None => {
                    return Option::None;
                },
                Option::Some(nm) => {
                    ia.append(nm.as_str());
                    ia.append(":");
                },
            }
            i = i + 1;
        }
        proof {
            assert(argsv.subrange(n as int, n as int).len() == 0);
            assert(swift_item_args(argsv) is Some);
            assert(swift_item_args(argsv)->0 =~= ia@);
        }
        let mut out = String::new();
        if self.self_type_path.is_some() {
            out.append(tname.as_str());
            out.append(".");
        }
        out.append(item.as_str());
        out.append("(");
        out.append(ia.as_str());
        out.append(")");
        proof {
            assert(out@ =~= spec_swift_name(
                self.path.name@,
                match self.self_type_path {
                    Option::Some(p) => Option::Some(p.name@),
                    Option::None => Option::None,
                },
                fargs_view(self.args@),
                *config,
            )->0);
        }
        Option::Some(out)
    }
}

} // verus!
