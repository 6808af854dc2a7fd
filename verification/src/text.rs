//! Text building blocks: decimal numbers, fixed-point degrees, lists of parts,
//! and the handful of `str` operations that the configuration reader relies on.
use vstd::prelude::*;
use vstd::string::*;

verus! {

/// The decimal digit `d` as a character.
pub open spec fn digit_char(d: nat) -> char {
    seq!['0', '1', '2', '3', '4', '5', '6', '7', '8', '9'][d as int]
}

/// The decimal representation of `n`, without leading zeros.
pub open spec fn decimal(n: nat) -> Seq<char>
    decreases n,
{
    if n < 10 {
        seq![digit_char(n)]
    } else {
        decimal(n / 10) + seq![digit_char(n % 10)]
    }
}

/// The last `width` decimal digits of `n`, leading zeros kept.
pub open spec fn zero_padded(n: nat, width: nat) -> Seq<char>
    decreases width,
{
    if width == 0 {
        Seq::<char>::empty()
    } else {
        zero_padded(n / 10, (width - 1) as nat) + seq![digit_char(n % 10)]
    }
}

/// `v` ten-millionths written in units, with seven decimals.
pub open spec fn fixed_1e7(v: int) -> Seq<char> {
    if v < 0 {
        "-"@ + fixed_1e7_magnitude((-v) as nat)
    } else {
        fixed_1e7_magnitude(v as nat)
    }
}

/// `m` ten-millionths, without a sign.
pub open spec fn fixed_1e7_magnitude(m: nat) -> Seq<char> {
    decimal(m / 10_000_000) + "."@ + zero_padded(m % 10_000_000, 7)
}

/// The parts in order, with `separator` between neighbours.
pub open spec fn joined(parts: Seq<Seq<char>>, separator: Seq<char>) -> Seq<char>
    decreases parts.len(),
{
    if parts.len() == 0 {
        Seq::<char>::empty()
    } else if parts.len() == 1 {
        parts[0]
    } else {
        joined(parts.drop_last(), separator) + separator + parts.last()
    }
}

/// The text of each string, in order.
pub open spec fn texts(strings: Seq<String>) -> Seq<Seq<char>> {
    strings.map_values(|s: String| s@)
}

/// A single decimal digit.
fn digit_text(d: u64) -> (r: &'static str)
    requires
        d < 10,
    ensures
        r@ == seq![digit_char(d as nat)],
{
    proof {
        reveal_strlit("0");
        reveal_strlit("1");
        reveal_strlit("2");
        reveal_strlit("3");
        reveal_strlit("4");
        reveal_strlit("5");
        reveal_strlit("6");
        reveal_strlit("7");
        reveal_strlit("8");
        reveal_strlit("9");
    }
    if d == 0 {
        "0"
    } else if d == 1 {
        "1"
    } else if d == 2 {
        "2"
    } else if d == 3 {
        "3"
    } else if d == 4 {
        "4"
    } else if d == 5 {
        "5"
    } else if d == 6 {
        "6"
    } else if d == 7 {
        "7"
    } else if d == 8 {
        "8"
    } else {
        "9"
    }
}

/// `n` in decimal.
pub fn decimal_text(n: u64) -> (r: String)
    ensures
        r@ == decimal(n as nat),
    decreases n,
{
    if n < 10 {
        digit_text(n).to_string()
    } else {
        decimal_text(n / 10).concat(digit_text(n % 10))
    }
}

/// `n` in decimal.
pub fn count_text(n: usize) -> (r: String)
    ensures
        r@ == decimal(n as nat),
{
    decimal_text(n as u64)
}

/// The last `width` decimal digits of `n`.
fn zero_padded_text(n: u64, width: u64) -> (r: String)
    ensures
        r@ == zero_padded(n as nat, width as nat),
    decreases width,
{
    if width == 0 {
        String::new()
    } else {
        zero_padded_text(n / 10, width - 1).concat(digit_text(n % 10))
    }
}

/// `v` ten-millionths in units with seven decimals, as degrees are shown.
pub fn fixed_1e7_text(v: i32) -> (r: String)
    ensures
        r@ == fixed_1e7(v as int),
{
    let negative: bool = v < 0;
    let wide: i64 = v as i64;
    let magnitude: u64 = if negative {
        (-wide) as u64
    } else {
        wide as u64
    };
    let digits: String = decimal_text(magnitude / 10_000_000).concat(".").concat(
        zero_padded_text(magnitude % 10_000_000, 7).as_str(),
    );
    if negative {
        "-".to_string().concat(digits.as_str())
    } else {
        digits
    }
}

/// Whether `s` is the text `expected`.
pub fn is_text(s: &String, expected: &str) -> (r: bool)
    ensures
        r == (s@ == expected@),
{
    *s == expected.to_string()
}

/// Joins the parts with `separator` between neighbours.
pub fn join_texts(parts: &Vec<String>, separator: &str) -> (r: String)
    ensures
        r@ == joined(texts(parts@), separator@),
{
    let mut out: String = String::new();
    let mut i: usize = 0;
    while i < parts.len()
        invariant
            i <= parts.len(),
            out@ == joined(texts(parts@).take(i as int), separator@),
        decreases parts.len() - i,
    {
        proof {
            let next = texts(parts@).take(i + 1);
            assert(next.drop_last() == texts(parts@).take(i as int));
            assert(next.last() == parts@[i as int]@);
        }
        if i == 0 {
            out = parts[i].clone();
        } else {
            out = out.concat(separator).concat(parts[i].as_str());
        }
        i = i + 1;
    }
    assert(texts(parts@).take(parts@.len() as int) == texts(parts@));
    out
}

/// Whether `c` has the Unicode property White_Space.
pub open spec fn is_white_space(c: char) -> bool {
    let u = c as u32;
    ||| 0x09 <= u <= 0x0d
    ||| u == 0x20
    ||| u == 0x85
    ||| u == 0xa0
    ||| u == 0x1680
    ||| 0x2000 <= u <= 0x200a
    ||| u == 0x2028
    ||| u == 0x2029
    ||| u == 0x202f
    ||| u == 0x205f
    ||| u == 0x3000
}

/// `s` without its leading white space.
pub open spec fn trimmed_start(s: Seq<char>) -> Seq<char>
    decreases s.len(),
{
    if s.len() > 0 && is_white_space(s.first()) {
        trimmed_start(s.drop_first())
    } else {
        s
    }
}

/// `s` without its trailing white space.
pub open spec fn trimmed_end(s: Seq<char>) -> Seq<char>
    decreases s.len(),
{
    if s.len() > 0 && is_white_space(s.last()) {
        trimmed_end(s.drop_last())
    } else {
        s
    }
}

/// `s` without leading and trailing white space.
pub open spec fn trimmed(s: Seq<char>) -> Seq<char> {
    trimmed_end(trimmed_start(s))
}

/// `c`, with an ASCII capital letter turned into its small letter.
pub open spec fn ascii_lower_char(c: char) -> char {
    if 'A' <= c && c <= 'Z' {
        (c as u32 + 32) as char
    } else {
        c
    }
}

/// Every character of `s` in ASCII lower case.
pub open spec fn ascii_lower(s: Seq<char>) -> Seq<char> {
    s.map_values(|c: char| ascii_lower_char(c))
}

/// The quoted and escaped form in which `Debug` shows the text `s`.
pub uninterp spec fn str_debug(s: Seq<char>) -> Seq<char>;

/// `str::trim`: removes leading and trailing characters that have the Unicode
/// property White_Space, and nothing else.
pub assume_specification<'a>[ str::trim ](s: &'a str) -> (r: &'a str)
    ensures
        r@ == trimmed(s@),
;

/// `str::to_ascii_lowercase`: maps `A` to `Z` to `a` to `z` and leaves every other
/// character alone.
pub assume_specification[ str::to_ascii_lowercase ](s: &str) -> (r: String)
    ensures
        r@ == ascii_lower(s@),
;

/// The `Debug` form of a `str`. The result depends on the text alone; which characters
/// are escaped, and how, is left to the standard library.
#[verifier::external_body]
pub(crate) fn debug_text(s: &str) -> (r: String)
    ensures
        r@ == str_debug(s@),
{
    format!("{:?}", s)
}

/// Whether `s` is nothing but white space.
pub open spec fn all_white_space(s: Seq<char>) -> bool {
    forall|i: int| 0 <= i < s.len() ==> is_white_space(#[trigger] s[i])
}

proof fn lemma_trimmed_start_padding(before: Seq<char>, s: Seq<char>)
    requires
        all_white_space(before),
    ensures
        trimmed_start(before + s) == trimmed_start(s),
    decreases before.len(),
{
    if before.len() == 0 {
        assert(before + s =~= s);
    } else {
        assert((before + s).drop_first() =~= before.drop_first() + s);
        assert forall|i: int| 0 <= i < before.drop_first().len() implies is_white_space(
            #[trigger] before.drop_first()[i],
        ) by {
            assert(before.drop_first()[i] == before[i + 1]);
        }
        assert((before + s).first() == before[0]);
        lemma_trimmed_start_padding(before.drop_first(), s);
    }
}

proof fn lemma_trimmed_end_padding(s: Seq<char>, after: Seq<char>)
    requires
        all_white_space(after),
    ensures
        trimmed_end(s + after) == trimmed_end(s),
    decreases after.len(),
{
    if after.len() == 0 {
        assert(s + after =~= s);
    } else {
        assert((s + after).drop_last() =~= s + after.drop_last());
        assert((s + after).last() == after[after.len() - 1]);
        lemma_trimmed_end_padding(s, after.drop_last());
    }
}

proof fn lemma_trimmed_start_suffix(s: Seq<char>, after: Seq<char>)
    requires
        all_white_space(after),
    ensures
        trimmed_start(s).len() == 0 ==> trimmed_start(s + after).len() == 0,
        trimmed_start(s).len() > 0 ==> trimmed_start(s + after) == trimmed_start(s) + after,
    decreases s.len(),
{
    if s.len() == 0 {
        assert(s + after =~= after + Seq::<char>::empty());
        lemma_trimmed_start_padding(after, Seq::<char>::empty());
    } else {
        assert((s + after).first() == s.first());
        if is_white_space(s.first()) {
            assert((s + after).drop_first() =~= s.drop_first() + after);
            lemma_trimmed_start_suffix(s.drop_first(), after);
        }
    }
}

/// White space around a text does not change what is left of it when it is trimmed.
pub proof fn lemma_trimmed_padding(before: Seq<char>, s: Seq<char>, after: Seq<char>)
    requires
        all_white_space(before),
        all_white_space(after),
    ensures
        trimmed(before + s + after) == trimmed(s),
{
    assert(before + s + after =~= before + (s + after));
    lemma_trimmed_start_padding(before, s + after);
    lemma_trimmed_start_suffix(s, after);
    lemma_trimmed_end_padding(trimmed_start(s), after);
    if trimmed_start(s).len() == 0 {
        assert(trimmed_start(s) =~= trimmed_start(s + after));
    }
}

proof fn lemma_trimmed_start_lower(s: Seq<char>)
    ensures
        trimmed_start(ascii_lower(s)) == ascii_lower(trimmed_start(s)),
    decreases s.len(),
{
    if s.len() > 0 {
        assert(ascii_lower(s).first() == ascii_lower_char(s.first()));
        assert(ascii_lower(s).drop_first() =~= ascii_lower(s.drop_first()));
        lemma_trimmed_start_lower(s.drop_first());
    }
}

proof fn lemma_trimmed_end_lower(s: Seq<char>)
    ensures
        trimmed_end(ascii_lower(s)) == ascii_lower(trimmed_end(s)),
    decreases s.len(),
{
    if s.len() > 0 {
        assert(ascii_lower(s).last() == ascii_lower_char(s.last()));
        assert(ascii_lower(s).drop_last() =~= ascii_lower(s.drop_last()));
        lemma_trimmed_end_lower(s.drop_last());
    }
}

/// Trimming and lowering can be done in either order.
pub proof fn lemma_trimmed_lower(s: Seq<char>)
    ensures
        trimmed(ascii_lower(s)) == ascii_lower(trimmed(s)),
{
    lemma_trimmed_start_lower(s);
    lemma_trimmed_end_lower(trimmed_start(s));
}

/// Lowering a text twice is lowering it once.
pub proof fn lemma_lower_idempotent(s: Seq<char>)
    ensures
        ascii_lower(ascii_lower(s)) == ascii_lower(s),
{
    assert(ascii_lower(ascii_lower(s)) =~= ascii_lower(s));
}

} // verus!
