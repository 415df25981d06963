use vstd::prelude::*;

verus! {

/// The output dialect. `Cython` is the attribute-free dialect: it never emits
/// classification tags, pointer attributes or the no-return attribute.
#[derive(Clone, Copy, PartialEq, Eq, Structural, Debug)]
pub enum Language {
    C,
    Cxx,
    Cython,
}

/// How an argument list is laid out: on one line, one argument per line, or
/// decided by whether the one-line form fits within `Config::line_length`.
#[derive(Clone, Copy, PartialEq, Eq, Structural, Debug)]
pub enum Layout {
    Horizontal,
    Vertical,
    Auto,
}

/// Classification of a named type, controlling the keyword printed before its
/// name in dialects that use one.
#[derive(Clone, Copy, PartialEq, Eq, Structural, Debug)]
pub enum DeclarationType {
    Struct,
    Union,
    Enum,
    Typedef,
}

pub open spec fn spec_keyword(d: DeclarationType) -> Seq<char> {
    match d {
        DeclarationType::Struct => "struct"@,
        DeclarationType::Union => "union"@,
        DeclarationType::Enum => "enum"@,
        DeclarationType::Typedef => "typedef"@,
    }
}

impl DeclarationType {
    pub fn keyword(&self) -> (r: &'static str)
        ensures
            r@ == spec_keyword(*self),
    {
        match *self {
            DeclarationType::Struct => "struct",
            DeclarationType::Union => "union",
            DeclarationType::Enum => "enum",
            DeclarationType::Typedef => "typedef",
        }
    }
}

/// A naming rule applied to argument names.
#[derive(Clone, Copy, PartialEq, Eq, Structural, Debug)]
pub enum RenameRule {
    Unchanged,
    LowerCase,
    UpperCase,
}

/// ASCII uppercasing of one character; anything that is not an ASCII lower-case
/// letter is kept as it is.
pub open spec fn upper_char(c: char) -> char {
    if c == 'a' { 'A' } else if c == 'b' { 'B' } else if c == 'c' { 'C' }
    else if c == 'd' { 'D' } else if c == 'e' { 'E' } else if c == 'f' { 'F' }
    else if c == 'g' { 'G' } else if c == 'h' { 'H' } else if c == 'i' { 'I' }
    else if c == 'j' { 'J' } else if c == 'k' { 'K' } else if c == 'l' { 'L' }
    else if c == 'm' { 'M' } else if c == 'n' { 'N' } else if c == 'o' { 'O' }
    else if c == 'p' { 'P' } else if c == 'q' { 'Q' } else if c == 'r' { 'R' }
    else if c == 's' { 'S' } else if c == 't' { 'T' } else if c == 'u' { 'U' }
    else if c == 'v' { 'V' } else if c == 'w' { 'W' } else if c == 'x' { 'X' }
    else if c == 'y' { 'Y' } else if c == 'z' { 'Z' } else { c }
}

/// ASCII lowercasing of one character.
pub open spec fn lower_char(c: char) -> char {
    if c == 'A' { 'a' } else if c == 'B' { 'b' } else if c == 'C' { 'c' }
    else if c == 'D' { 'd' } else if c == 'E' { 'e' } else if c == 'F' { 'f' }
    else if c == 'G' { 'g' } else if c == 'H' { 'h' } else if c == 'I' { 'i' }
    else if c == 'J' { 'j' } else if c == 'K' { 'k' } else if c == 'L' { 'l' }
    else if c == 'M' { 'm' } else if c == 'N' { 'n' } else if c == 'O' { 'o' }
    else if c == 'P' { 'p' } else if c == 'Q' { 'q' } else if c == 'R' { 'r' }
    else if c == 'S' { 's' } else if c == 'T' { 't' } else if c == 'U' { 'u' }
    else if c == 'V' { 'v' } else if c == 'W' { 'w' } else if c == 'X' { 'x' }
    else if c == 'Y' { 'y' } else if c == 'Z' { 'z' } else { c }
}

pub fn to_upper_char(c: char) -> (r: char)
    ensures
        r == upper_char(c),
{
    match c {
        'a' => 'A', 'b' => 'B', 'c' => 'C', 'd' => 'D', 'e' => 'E', 'f' => 'F',
        'g' => 'G', 'h' => 'H', 'i' => 'I', 'j' => 'J', 'k' => 'K', 'l' => 'L',
        'm' => 'M', 'n' => 'N', 'o' => 'O', 'p' => 'P', 'q' => 'Q', 'r' => 'R',
        's' => 'S', 't' => 'T', 'u' => 'U', 'v' => 'V', 'w' => 'W', 'x' => 'X',
        'y' => 'Y', 'z' => 'Z', _ => c,
    }
}

pub fn to_lower_char(c: char) -> (r: char)
    ensures
        r == lower_char(c),
{
    match c {
        'A' => 'a', 'B' => 'b', 'C' => 'c', 'D' => 'd', 'E' => 'e', 'F' => 'f',
        'G' => 'g', 'H' => 'h', 'I' => 'i', 'J' => 'j', 'K' => 'k', 'L' => 'l',
        'M' => 'm', 'N' => 'n', 'O' => 'o', 'P' => 'p', 'Q' => 'q', 'R' => 'r',
        'S' => 's', 'T' => 't', 'U' => 'u', 'V' => 'v', 'W' => 'w', 'X' => 'x',
        'Y' => 'y', 'Z' => 'z', _ => c,
    }
}

/// What a rename rule does to one name, character by character.
pub open spec fn spec_apply_rule(r: RenameRule, s: Seq<char>) -> Seq<char> {
    match r {
        RenameRule::Unchanged => s,
        RenameRule::LowerCase => s.map_values(|c: char| lower_char(c)),
        RenameRule::UpperCase => s.map_values(|c: char| upper_char(c)),
    }
}

impl RenameRule {
    /// Whether the rule changes anything at all; `Unchanged` is the rule that
    /// leaves every name as it is.
    pub fn is_unchanged(&self) -> (r: bool)
        ensures
            r == (*self == RenameRule::Unchanged),
    {
        match *self {
            RenameRule::Unchanged => true,
            _ => false,
        }
    }

    /// Applies the rule to one name.
    #[verifier::loop_isolation(false)]
    pub fn apply(&self, name: &str) -> (r: String)
        ensures
            r@ == spec_apply_rule(*self, name@),
    {
        match *self {
            RenameRule::Unchanged => name.to_owned(),
            RenameRule::LowerCase => {
                let n = name.unicode_len();
                let mut out = String::new();
                let mut i: usize = 0;
                while i < n
                    invariant
                        i <= n,
                        n == name@.len(),
                        out@ =~= name@.subrange(0, i as int).map_values(|c: char| lower_char(c)),
                    decreases n - i,
                {
                    let c = name.get_char(i);
                    crate::text::push_char(&mut out, to_lower_char(c));
                    proof {
                        assert(name@.subrange(0, i + 1) =~= name@.subrange(0, i as int).push(name@[i as int]));
                        assert(name@.subrange(0, i + 1).map_values(|c: char| lower_char(c)) =~= name@.subrange(0, i as int).map_values(|c: char| lower_char(c)).push(lower_char(name@[i as int])));
                    }
                    i = i + 1;
                }
                proof {
                    assert(name@.subrange(0, n as int) =~= name@);
                }
                out
            }
            RenameRule::UpperCase => {
                let n = name.unicode_len();
                let mut out = String::new();
                let mut i: usize = 0;
                while i < n
                    invariant
                        i <= n,
                        n == name@.len(),
                        out@ =~= name@.subrange(0, i as int).map_values(|c: char| upper_char(c)),
                    decreases n - i,
                {
                    let c = name.get_char(i);
                    crate::text::push_char(&mut out, to_upper_char(c));
                    proof {
                        assert(name@.subrange(0, i + 1) =~= name@.subrange(0, i as int).push(name@[i as int]));
                        assert(name@.subrange(0, i + 1).map_values(|c: char| upper_char(c)) =~= name@.subrange(0, i as int).map_values(|c: char| upper_char(c)).push(upper_char(name@[i as int])));
                    }
                    i = i + 1;
                }
                proof {
                    assert(name@.subrange(0, n as int) =~= name@);
                }
                out
            }
        }
    }
}

/// Configuration for functions: argument layout, the default argument naming
/// rule, and the attribute printed after a function that never returns.
#[derive(Clone, Debug)]
pub struct FunctionConfig {
    pub args: Layout,
    pub rename_args: RenameRule,
    pub no_return: Option<String>,
}

/// Configuration for pointers: the attributes printed after a pointer that can
/// never be null and after one that may be.
#[derive(Clone, Debug)]
pub struct PointerConfig {
    pub non_null_attribute: Option<String>,
    pub nullable_attribute: Option<String>,
}

/// The read-only configuration the renderer and the loader consult.
#[derive(Clone, Debug)]
pub struct Config {
    pub language: Language,
    pub line_length: usize,
    pub function: FunctionConfig,
    pub pointer: PointerConfig,
}

} // verus!
