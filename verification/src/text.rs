//! Small text helpers: deriving a file-friendly name from a game name,
//! rendering counters, and locating marker characters in segment names.

use vstd::prelude::*;

verus! {

/// What `str::to_lowercase` returns for a given character sequence.
pub uninterp spec fn lower_of(s: Seq<char>) -> Seq<char>;

/// Relies on `str::to_lowercase`: the result depends on the characters
/// alone; an empty string stays empty; the result is already lowercase, so
/// folding it again returns it unchanged — and it stays a fixed point after
/// its spaces are replaced by underscores, both being uncased characters
/// that no lowercase mapping touches.
#[verifier::external_body]
fn lowercase(s: &str) -> (r: String)
    ensures
        r@ == lower_of(s@),
        s@.len() == 0 ==> r@.len() == 0,
        lower_of(r@) == r@,
        lower_of(underscore_spaces(r@)) == underscore_spaces(r@),
{
    s.to_lowercase()
}

/// Spaces become underscores; every other character is kept.
pub open spec fn underscore_spaces(s: Seq<char>) -> Seq<char> {
    s.map_values(
        |c: char|
            if c == ' ' {
                '_'
            } else {
                c
            },
    )
}

pub open spec fn spec_snake_case(s: Seq<char>) -> Seq<char> {
    underscore_spaces(lower_of(s))
}

/// Substituting spaces is idempotent: the first pass leaves none behind.
pub proof fn lemma_underscore_spaces_idempotent(s: Seq<char>)
    ensures
        underscore_spaces(underscore_spaces(s)) =~= underscore_spaces(s),
{
    assert forall|k: int|
        0 <= k < s.len() implies underscore_spaces(underscore_spaces(s))[k] == underscore_spaces(
        s,
    )[k] by {
        assert(underscore_spaces(s)[k] != ' ');
    }
}



/// The file-friendly form of a game name: lower-cased, spaces replaced by
/// underscores.  Law: the result is its own snake case — neither spaces nor
/// foldable characters survive the first pass, so applying the function
/// twice equals applying it once.
pub fn to_snake_case(s: &str) -> (r: String)
    ensures
        r@ == spec_snake_case(s@),
        spec_snake_case(r@) == r@,
{
    let lowered = lowercase(s);
    let n = lowered.as_str().unicode_len();
    let mut out = String::new();
    let mut i: usize = 0;
    while i < n
        invariant
            n == lowered@.len(),
            i <= n,
            out@ =~= underscore_spaces(lowered@.take(i as int)),
        decreases n - i,
    {
        let c = lowered.as_str().get_char(i);
        if c == ' ' {
            out.append("_");
            proof {
                reveal_strlit("_");
                assert(out@ =~= underscore_spaces(lowered@.take(i + 1)));
            }
        } else {
            let piece = lowered.as_str().substring_char(i, i + 1);
            out.append(piece);
            proof {
                assert(out@ =~= underscore_spaces(lowered@.take(i + 1)));
            }
        }
        i += 1;
    }
    proof {
        assert(lowered@.take(n as int) =~= lowered@);
        lemma_underscore_spaces_idempotent(lowered@);
    }
    out
}

pub open spec fn digit_char(d: int) -> char {
    if d == 0 {
        '0'
    } else if d == 1 {
        '1'
    } else if d == 2 {
        '2'
    } else if d == 3 {
        '3'
    } else if d == 4 {
        '4'
    } else if d == 5 {
        '5'
    } else if d == 6 {
        '6'
    } else if d == 7 {
        '7'
    } else if d == 8 {
        '8'
    } else {
        '9'
    }
}

/// The decimal digits of `n`, most significant first, no leading zeros
/// (a lone zero for zero).
pub open spec fn dec_digits(n: nat) -> Seq<char>
    decreases n,
{
    if n < 10 {
        seq![digit_char(n as int)]
    } else {
        dec_digits(n / 10).push(digit_char((n % 10) as int))
    }
}

fn push_digit(out: &mut String, d: u32)
    requires
        d < 10,
    ensures
        final(out)@ == old(out)@ + seq![digit_char(d as int)],
{
    let ghost prev = out@;
    match d {
        0 => out.append("0"),
        1 => out.append("1"),
        2 => out.append("2"),
        3 => out.append("3"),
        4 => out.append("4"),
        5 => out.append("5"),
        6 => out.append("6"),
        7 => out.append("7"),
        8 => out.append("8"),
        _ => out.append("9"),
    }
    proof {
        reveal_strlit("0");
        reveal_strlit("1");
        reveal_strlit("2");
        reveal_strlit("3");
        reveal_strlit("4");
        reveal_strlit("5");
        reveal_strlit("6");
        reveal_strlit("7");
        reveal_strlit("8");
        reveal_strlit("9");
        assert(out@ =~= prev + seq![digit_char(d as int)]);
    }
}

fn push_decimal(out: &mut String, n: u32)
    ensures
        final(out)@ == old(out)@ + dec_digits(n as nat),
    decreases n,
{
    if n >= 10 {
        push_decimal(out, n / 10);
        push_digit(out, n % 10);
        proof {
            assert(old(out)@ + dec_digits((n / 10) as nat) + seq![
                digit_char((n % 10) as int),
            ] =~= old(out)@ + dec_digits(n as nat));
        }
    } else {
        push_digit(out, n);
        proof {
            assert(old(out)@ + seq![digit_char(n as int)] =~= old(out)@ + dec_digits(n as nat));
        }
    }
}

/// Render a counter in decimal.
pub fn u32_to_string(n: u32) -> (r: String)
    ensures
        r@ == dec_digits(n as nat),
{
    let mut out = String::new();
    push_decimal(&mut out, n);
    proof {
        assert(out@ =~= dec_digits(n as nat));
    }
    out
}

/// First position of `c` in `s`, if any.
pub open spec fn spec_find(s: Seq<char>, c: char) -> Option<int>
    decreases s.len(),
{
    if s.len() == 0 {
        None
    } else if s[0] == c {
        Some(0)
    } else {
        match spec_find(s.subrange(1, s.len() as int), c) {
            Some(i) => Some(i + 1),
            None => None,
        }
    }
}

proof fn lemma_spec_find_found(s: Seq<char>, c: char, i: int)
    requires
        0 <= i < s.len(),
        s[i] == c,
        forall|j: int| 0 <= j < i ==> s[j] != c,
    ensures
        spec_find(s, c) == Some(i),
    decreases i,
{
    if i > 0 {
        lemma_spec_find_found(s.subrange(1, s.len() as int), c, i - 1);
    }
}

proof fn lemma_spec_find_absent(s: Seq<char>, c: char)
    requires
        forall|j: int| 0 <= j < s.len() ==> s[j] != c,
    ensures
        spec_find(s, c) is None,
    decreases s.len(),
{
    if s.len() > 0 {
        lemma_spec_find_absent(s.subrange(1, s.len() as int), c);
    }
}

pub fn find_char(s: &str, c: char) -> (r: Option<usize>)
    ensures
        match r {
            Some(i) => spec_find(s@, c) == Some(i as int),
            None => spec_find(s@, c) is None,
        },
{
    let n = s.unicode_len();
    let mut i: usize = 0;
    while i < n
        invariant
            n == s@.len(),
            i <= n,
            forall|j: int| 0 <= j < i ==> s@[j] != c,
        decreases n - i,
    {
        if s.get_char(i) == c {
            proof {
                lemma_spec_find_found(s@, c, i as int);
            }
            return Some(i);
        }
        i += 1;
    }
    proof {
        lemma_spec_find_absent(s@, c);
    }
    None
}

} // verus!
