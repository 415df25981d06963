use vstd::prelude::*;

verus! {

/// Column reached after printing one character at column `col`: a newline
/// starts a fresh line; any other character advances the column by one, capped
/// at the machine limit (a longer line cannot exist in memory).
pub open spec fn step_col(col: nat, c: char) -> nat {
    if c == '\n' {
        0
    } else if col < usize::MAX as nat {
        (col + 1) as nat
    } else {
        col
    }
}

/// Column reached after printing `s` starting at column `col`.
pub open spec fn col_after(col: nat, s: Seq<char>) -> nat
    decreases s.len(),
{
    if s.len() == 0 {
        col
    } else {
        col_after(step_col(col, s[0]), s.drop_first())
    }
}

/// The column at the end of a whole buffer.
pub open spec fn col_of(s: Seq<char>) -> nat {
    col_after(0, s)
}

/// The longest line length reached while printing `s` starting at column
/// `col`, with `m` the longest already seen.
pub open spec fn max_line_from(col: nat, m: nat, s: Seq<char>) -> nat
    decreases s.len(),
{
    if s.len() == 0 {
        if col > m {
            col
        } else {
            m
        }
    } else {
        max_line_from(step_col(col, s[0]), if col > m { col } else { m }, s.drop_first())
    }
}

/// A run of `n` spaces.
pub open spec fn spaces(n: nat) -> Seq<char>
    decreases n,
{
    if n == 0 {
        Seq::empty()
    } else {
        spaces((n - 1) as nat).push(' ')
    }
}

pub proof fn lemma_col_after_concat(col: nat, a: Seq<char>, b: Seq<char>)
    ensures
        col_after(col, a + b) == col_after(col_after(col, a), b),
    decreases a.len(),
{
    if a.len() == 0 {
        assert(a + b =~= b);
    } else {
        assert((a + b).drop_first() =~= a.drop_first() + b);
        assert((a + b)[0] == a[0]);
        lemma_col_after_concat(step_col(col, a[0]), a.drop_first(), b);
    }
}

pub proof fn lemma_col_after_push(col: nat, a: Seq<char>, c: char)
    ensures
        col_after(col, a.push(c)) == step_col(col_after(col, a), c),
{
    lemma_col_after_concat(col, a, seq![c]);
    assert(a.push(c) =~= a + seq![c]);
    assert(seq![c].drop_first() =~= Seq::<char>::empty());
    assert(col_after(step_col(col_after(col, a), c), seq![c].drop_first()) == step_col(col_after(col, a), c));
}

/// Relies on `String::push` of std: it appends exactly the given character.
#[verifier::external_body]
pub fn push_char(s: &mut String, c: char)
    ensures
        final(s)@ == old(s)@.push(c),
{
    s.push(c);
}

/// Advances a column over a piece of text, as the renderer's layout logic
/// counts it.
#[verifier::loop_isolation(false)]
pub fn advance_col(col: usize, s: &str) -> (r: usize)
    ensures
        r as nat == col_after(col as nat, s@),
{
    let n = s.unicode_len();
    let mut i: usize = 0;
    let mut c: usize = col;
    while i < n
        invariant
            i <= n,
            n == s@.len(),
            c as nat == col_after(col as nat, s@.subrange(0, i as int)),
        decreases n - i,
    {
        let ch = s.get_char(i);
        proof {
            assert(s@.subrange(0, i + 1) =~= s@.subrange(0, i as int).push(s@[i as int]));
            lemma_col_after_push(col as nat, s@.subrange(0, i as int), s@[i as int]);
        }
        if ch == '\n' {
            c = 0;
        } else if c < usize::MAX {
            c = c + 1;
        }
        i = i + 1;
    }
    proof {
        assert(s@.subrange(0, n as int) =~= s@);
    }
    c
}

/// The longest line reached by printing `s` at column `col`, measured as the
/// speculative-layout probe measures it.
#[verifier::loop_isolation(false)]
pub fn measure_max_line(col: usize, s: &str) -> (r: usize)
    ensures
        r as nat == max_line_from(col as nat, 0, s@),
{
    let n = s.unicode_len();
    let mut i: usize = 0;
    let mut c: usize = col;
    let mut m: usize = 0;
    proof {
        assert(s@.subrange(0, n as int) =~= s@);
    }
    while i < n
        invariant
            i <= n,
            n == s@.len(),
            max_line_from(col as nat, 0, s@) == max_line_from(c as nat, m as nat, s@.subrange(i as int, n as int)),
        decreases n - i,
    {
        let ch = s.get_char(i);
        proof {
            assert(s@.subrange(i as int, n as int).drop_first() =~= s@.subrange(i + 1, n as int));
            assert(s@.subrange(i as int, n as int)[0] == s@[i as int]);
        }
        if c > m {
            m = c;
        }
        if ch == '\n' {
            c = 0;
        } else if c < usize::MAX {
            c = c + 1;
        }
        i = i + 1;
    }
    proof {
        assert(s@.subrange(n as int, n as int) =~= Seq::<char>::empty());
    }
    if c > m {
        m = c;
    }
    m
}

/// Appends `n` spaces.
#[verifier::loop_isolation(false)]
pub fn append_spaces(out: &mut String, n: usize)
    ensures
        final(out)@ == old(out)@ + spaces(n as nat),
{
    let mut i: usize = 0;
    proof {
        assert(out@ =~= old(out)@ + spaces(0));
    }
    while i < n
        invariant
            i <= n,
            out@ == old(out)@ + spaces(i as nat),
        decreases n - i,
    {
        out.append(" ");
        proof {
            reveal_strlit(" ");
            assert(" "@ =~= seq![' ']);
            assert(old(out)@ + spaces((i + 1) as nat) =~= (old(out)@ + spaces(i as nat)) + " "@);
        }
        i = i + 1;
    }
}

/// Whether `p` is a prefix of `s`.
pub open spec fn spec_starts_with(s: Seq<char>, p: Seq<char>) -> bool {
    p.len() <= s.len() && s.subrange(0, p.len() as int) == p
}

#[verifier::loop_isolation(false)]
pub fn str_starts_with(s: &str, p: &str) -> (r: bool)
    ensures
        r == spec_starts_with(s@, p@),
{
    let sn = s.unicode_len();
    let pn = p.unicode_len();
    if pn > sn {
        return false;
    }
    let mut i: usize = 0;
    while i < pn
        invariant
            i <= pn,
            pn <= sn,
            sn == s@.len(),
            pn == p@.len(),
            forall|j: int| 0 <= j < i ==> s@[j] == p@[j],
        decreases pn - i,
    {
        if s.get_char(i) != p.get_char(i) {
            assert(s@.subrange(0, pn as int)[i as int] != p@[i as int]);
            return false;
        }
        i = i + 1;
    }
    proof {
        assert(s@.subrange(0, pn as int) =~= p@);
    }
    true
}

/// String equality against a literal.
pub fn string_eq_str(a: &String, b: &str) -> (r: bool)
    ensures
        r == (a@ == b@),
{
    let bs = b.to_owned();
    a.eq(&bs)
}

} // verus!
