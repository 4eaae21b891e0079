//! Text helpers: identifier casing, sanitizing, and small string utilities.

use vstd::prelude::*;
use vstd::string::*;

verus! {

/// What `inflections::case::to_snake_case` returns for the text `s`.
pub uninterp spec fn snake_case(s: Seq<char>) -> Seq<char>;

/// What `inflections::case::to_pascal_case` returns for the text `s`.
pub uninterp spec fn pascal_case(s: Seq<char>) -> Seq<char>;

/// What `str::to_lowercase` returns for the text `s`.
pub uninterp spec fn lowercase(s: Seq<char>) -> Seq<char>;

/// Calls `inflections::case::to_snake_case`. The result is a function of the
/// characters of `s` alone; the contract gives it the name `snake_case`.
#[verifier::external_body]
pub(crate) fn inflect_snake(s: &str) -> (r: String)
    ensures
        r@ == snake_case(s@),
{
    inflections::case::to_snake_case(s)
}

/// Calls `inflections::case::to_pascal_case`. The result is a function of the
/// characters of `s` alone; the contract gives it the name `pascal_case`.
#[verifier::external_body]
pub(crate) fn inflect_pascal(s: &str) -> (r: String)
    ensures
        r@ == pascal_case(s@),
{
    inflections::case::to_pascal_case(s)
}

/// Calls `str::to_lowercase`. The result is a function of the characters of
/// `s` alone; the contract gives it the name `lowercase`.
#[verifier::external_body]
fn std_lowercase(s: &str) -> (r: String)
    ensures
        r@ == lowercase(s@),
{
    s.to_lowercase()
}

/// Calls `String::push`, which appends one character.
#[verifier::external_body]
fn push_char(s: &mut String, c: char)
    ensures
        final(s)@ == old(s)@.push(c),
{
    s.push(c)
}

/// Whether `c` is one of the ten ASCII digits.
pub open spec fn is_digit(c: char) -> bool {
    '0' <= c && c <= '9'
}

/// Whether the text begins with an ASCII digit.
pub open spec fn starts_with_digit(s: Seq<char>) -> bool {
    s.len() > 0 && is_digit(s[0])
}

/// The snake-case symbol for `s`: prefixed with an underscore where it would
/// begin with a digit, suffixed with one where `s` is one of the reserved
/// words `fn`, `in`, `match`, `mod`.
pub open spec fn sanitized_snake(s: Seq<char>) -> Seq<char> {
    if starts_with_digit(s) {
        seq!['_'] + snake_case(s)
    } else if s == seq!['f', 'n'] {
        seq!['f', 'n', '_']
    } else if s == seq!['i', 'n'] {
        seq!['i', 'n', '_']
    } else if s == seq!['m', 'a', 't', 'c', 'h'] {
        seq!['m', 'a', 't', 'c', 'h', '_']
    } else if s == seq!['m', 'o', 'd'] {
        seq!['m', 'o', 'd', '_']
    } else {
        snake_case(s)
    }
}

/// The pascal-case symbol for `s`: prefixed with an underscore where it would
/// begin with a digit.
pub open spec fn sanitized_pascal(s: Seq<char>) -> Seq<char> {
    if starts_with_digit(s) {
        seq!['_'] + pascal_case(s)
    } else {
        pascal_case(s)
    }
}

/// Whether two texts hold the same characters.
pub fn same_text(a: &str, b: &str) -> (r: bool)
    ensures
        r == (a@ == b@),
{
    let x = a.to_owned();
    let y = b.to_owned();
    x == y
}

fn begins_with_digit(s: &str) -> (r: bool)
    ensures
        r == starts_with_digit(s@),
{
    if s.unicode_len() == 0 {
        false
    } else {
        let c = s.get_char(0);
        '0' <= c && c <= '9'
    }
}

/// Maps a name to a snake-case symbol: an underscore goes before a leading
/// digit and behind a reserved word.
pub fn to_sanitized_snake_case(s: &str) -> (r: String)
    ensures
        r@ == sanitized_snake(s@),
{
    proof {
        reveal_strlit("_");
        reveal_strlit("fn");
        reveal_strlit("in");
        reveal_strlit("match");
        reveal_strlit("mod");
        reveal_strlit("fn_");
        reveal_strlit("in_");
        reveal_strlit("match_");
        reveal_strlit("mod_");
        assert("fn"@ =~= seq!['f', 'n']);
        assert("in"@ =~= seq!['i', 'n']);
        assert("match"@ =~= seq!['m', 'a', 't', 'c', 'h']);
        assert("mod"@ =~= seq!['m', 'o', 'd']);
        assert("fn_"@ =~= seq!['f', 'n', '_']);
        assert("in_"@ =~= seq!['i', 'n', '_']);
        assert("match_"@ =~= seq!['m', 'a', 't', 'c', 'h', '_']);
        assert("mod_"@ =~= seq!['m', 'o', 'd', '_']);
    }
    if begins_with_digit(s) {
        let snake = inflect_snake(s);
        let r = String::from_str("_").concat(snake.as_str());
        assert(r@ =~= seq!['_'] + snake_case(s@));
        r
    } else if same_text(s, "fn") {
        String::from_str("fn_")
    } else if same_text(s, "in") {
        String::from_str("in_")
    } else if same_text(s, "match") {
        String::from_str("match_")
    } else if same_text(s, "mod") {
        String::from_str("mod_")
    } else {
        inflect_snake(s)
    }
}

/// Maps a name to a pascal-case symbol: an underscore goes before a leading
/// digit.
pub fn to_sanitized_pascal_case(s: &str) -> (r: String)
    ensures
        r@ == sanitized_pascal(s@),
{
    if begins_with_digit(s) {
        proof {
            reveal_strlit("_");
        }
        let pascal = inflect_pascal(s);
        let r = String::from_str("_").concat(pascal.as_str());
        assert(r@ =~= seq!['_'] + pascal_case(s@));
        r
    } else {
        inflect_pascal(s)
    }
}


/// The character that writes the digit `d` (below sixteen, letters in lower case).
pub open spec fn digit_char(d: nat) -> char {
    if d == 0 {
        '0'
    } else if d == 1 {
        '1'
    } else if d == 2 {
        '2'
    } else if d == 3 {
        '3'
    } else if d == 4 {
        '4'
    } else if d == 5 {
        '5'
    } else if d == 6 {
        '6'
    } else if d == 7 {
        '7'
    } else if d == 8 {
        '8'
    } else if d == 9 {
        '9'
    } else if d == 10 {
        'a'
    } else if d == 11 {
        'b'
    } else if d == 12 {
        'c'
    } else if d == 13 {
        'd'
    } else if d == 14 {
        'e'
    } else {
        'f'
    }
}

/// The digits of `n` in the given radix, most significant first, without
/// leading zeros (a single `0` for zero).
pub open spec fn digits(n: nat, radix: nat) -> Seq<char>
    decreases n,
    via digits_decreases
{
    if radix < 2 || n < radix {
        seq![digit_char(n)]
    } else {
        digits(n / radix, radix).push(digit_char(n % radix))
    }
}

#[via_fn]
proof fn digits_decreases(n: nat, radix: nat) {
    if radix >= 2 && n >= radix {
        lemma_quotient_smaller(n, radix);
    }
}

proof fn lemma_quotient_smaller(n: nat, radix: nat)
    requires
        radix >= 2,
        n >= radix,
    ensures
        n / radix < n,
{
    assert(n / radix < n) by (nonlinear_arith)
        requires
            radix >= 2,
            n >= radix,
    ;
}

/// `n` written in decimal.
pub open spec fn decimal_text(n: nat) -> Seq<char> {
    digits(n, 10)
}

/// `n` written in binary.
pub open spec fn binary_text(n: nat) -> Seq<char> {
    digits(n, 2)
}

/// `n` written in lower-case hexadecimal with at least two digits.
pub open spec fn hex_text(n: nat) -> Seq<char> {
    if n < 16 {
        seq!['0'] + digits(n, 16)
    } else {
        digits(n, 16)
    }
}

fn digit(d: u128) -> (c: char)
    requires
        d < 16,
    ensures
        c == digit_char(d as nat),
{
    if d == 0 {
        '0'
    } else if d == 1 {
        '1'
    } else if d == 2 {
        '2'
    } else if d == 3 {
        '3'
    } else if d == 4 {
        '4'
    } else if d == 5 {
        '5'
    } else if d == 6 {
        '6'
    } else if d == 7 {
        '7'
    } else if d == 8 {
        '8'
    } else if d == 9 {
        '9'
    } else if d == 10 {
        'a'
    } else if d == 11 {
        'b'
    } else if d == 12 {
        'c'
    } else if d == 13 {
        'd'
    } else if d == 14 {
        'e'
    } else {
        'f'
    }
}

fn push_digits(out: &mut String, n: u128, radix: u128)
    requires
        2 <= radix <= 16,
    ensures
        final(out)@ == old(out)@ + digits(n as nat, radix as nat),
    decreases n,
{
    if n >= radix {
        proof {
            lemma_quotient_smaller(n as nat, radix as nat);
        }
        push_digits(out, n / radix, radix);
        push_char(out, digit(n % radix));
        proof {
            let hi = digits((n / radix) as nat, radix as nat);
            assert(digits(n as nat, radix as nat) == hi.push(digit_char((n % radix) as nat)));
            assert(out@ =~= old(out)@ + hi.push(digit_char((n % radix) as nat)));
        }
    } else {
        push_char(out, digit(n));
        assert(out@ =~= old(out)@ + seq![digit_char(n as nat)]);
    }
}

/// Writes `n` in decimal.
pub fn decimal(n: u128) -> (r: String)
    ensures
        r@ == decimal_text(n as nat),
{
    let mut out = String::new();
    push_digits(&mut out, n, 10);
    assert(out@ =~= decimal_text(n as nat));
    out
}

/// Writes `n` in binary.
pub fn binary(n: u128) -> (r: String)
    ensures
        r@ == binary_text(n as nat),
{
    let mut out = String::new();
    push_digits(&mut out, n, 2);
    assert(out@ =~= binary_text(n as nat));
    out
}

/// Writes `n` in lower-case hexadecimal with at least two digits.
pub fn hex(n: u128) -> (r: String)
    ensures
        r@ == hex_text(n as nat),
{
    let mut out = String::new();
    if n < 16 {
        push_char(&mut out, '0');
    }
    push_digits(&mut out, n, 16);
    assert(out@ =~= hex_text(n as nat));
    out
}

/// Joins two texts.
pub fn join2(a: &str, b: &str) -> (r: String)
    ensures
        r@ == a@ + b@,
{
    String::from_str(a).concat(b)
}

/// Joins three texts.
pub fn join3(a: &str, b: &str, c: &str) -> (r: String)
    ensures
        r@ == a@ + b@ + c@,
{
    String::from_str(a).concat(b).concat(c)
}


/// Whether `pat` stands in `s` at index `i`.
pub open spec fn occurs_at(s: Seq<char>, pat: Seq<char>, i: int) -> bool {
    0 <= i && i + pat.len() <= s.len() && s.subrange(i, i + pat.len()) == pat
}

/// Whether `pat` stands somewhere in `s`.
pub open spec fn occurs_in(s: Seq<char>, pat: Seq<char>) -> bool {
    exists|i: int| occurs_at(s, pat, i)
}

/// `s` with every occurrence of `pat` replaced by `to`, scanning from the
/// left and never looking again at what a match has covered.
pub open spec fn replaced(s: Seq<char>, pat: Seq<char>, to: Seq<char>) -> Seq<char>
    decreases s.len(),
{
    if pat.len() == 0 || s.len() < pat.len() {
        s
    } else if occurs_at(s, pat, 0) {
        to + replaced(s.skip(pat.len() as int), pat, to)
    } else {
        seq![s[0]] + replaced(s.skip(1), pat, to)
    }
}

/// The bracketed repetition placeholder of a register array's name.
pub open spec fn bracket_placeholder() -> Seq<char> {
    seq!['[', '%', 's', ']']
}

/// The bare repetition placeholder of a register array's name.
pub open spec fn bare_placeholder() -> Seq<char> {
    seq!['%', 's']
}

/// The name of a register array with `label` in place of its repetition
/// placeholder: of the bracketed form where the name holds one, else of the
/// bare form.
pub open spec fn with_placeholder(name: Seq<char>, label: Seq<char>) -> Seq<char> {
    if occurs_in(name, bracket_placeholder()) {
        replaced(name, bracket_placeholder(), label)
    } else {
        replaced(name, bare_placeholder(), label)
    }
}

fn matches_at(s: &str, n: usize, pat: &str, m: usize, i: usize) -> (r: bool)
    requires
        n == s@.len(),
        m == pat@.len(),
    ensures
        r == occurs_at(s@, pat@, i as int),
{
    if m > n || i > n - m {
        return false;
    }
    let mut k: usize = 0;
    while k < m
        invariant
            n == s@.len(),
            m == pat@.len(),
            i + m <= n,
            k <= m,
            forall|j: int| 0 <= j < k ==> s@[i + j] == pat@[j],
        decreases m - k,
    {
        if s.get_char(i + k) != pat.get_char(k) {
            proof {
                let sub = s@.subrange(i as int, i + m);
                assert(sub[k as int] == s@[i + k]);
            }
            return false;
        }
        k += 1;
    }
    assert(s@.subrange(i as int, i + m) =~= pat@);
    true
}

fn contains_text(s: &str, pat: &str) -> (r: bool)
    ensures
        r == occurs_in(s@, pat@),
{
    let n = s.unicode_len();
    let m = pat.unicode_len();
    if m > n {
        return false;
    }
    let mut i: usize = 0;
    while i <= n - m
        invariant
            n == s@.len(),
            m == pat@.len(),
            m <= n,
            i <= n - m + 1,
            forall|j: int| 0 <= j < i ==> !occurs_at(s@, pat@, j),
        decreases n - m + 1 - i,
    {
        if matches_at(s, n, pat, m, i) {
            return true;
        }
        if i == n - m {
            return false;
        }
        i += 1;
    }
    false
}

fn replace_text(s: &str, pat: &str, to: &str) -> (r: String)
    requires
        pat@.len() > 0,
    ensures
        r@ == replaced(s@, pat@, to@),
{
    let n = s.unicode_len();
    let m = pat.unicode_len();
    let mut out = String::new();
    let mut i: usize = 0;
    proof {
        assert(s@.skip(0) =~= s@);
        assert(out@ + replaced(s@, pat@, to@) =~= replaced(s@, pat@, to@));
    }
    while i < n
        invariant
            n == s@.len(),
            m == pat@.len(),
            m > 0,
            i <= n,
            out@ + replaced(s@.skip(i as int), pat@, to@) == replaced(s@, pat@, to@),
        decreases n - i,
    {
        let ghost rest = s@.skip(i as int);
        let ghost before = out@;
        if matches_at(s, n, pat, m, i) {
            proof {
                assert(rest.subrange(0, m as int) =~= s@.subrange(i as int, i + m));
                assert(rest.skip(m as int) =~= s@.skip(i + m));
            }
            out.append(to);
            i += m;
            assert(out@ + replaced(s@.skip(i as int), pat@, to@) =~= before + replaced(
                rest,
                pat@,
                to@,
            ));
        } else {
            proof {
                if rest.len() >= m {
                    assert(rest.subrange(0, m as int) =~= s@.subrange(i as int, i + m));
                }
                assert(rest.skip(1) =~= s@.skip(i + 1));
                assert(rest[0] == s@[i as int]);
                if rest.len() < m {
                    assert(replaced(rest.skip(1), pat@, to@) == rest.skip(1));
                    assert(rest =~= seq![rest[0]] + rest.skip(1));
                }
            }
            push_char(&mut out, s.get_char(i));
            i += 1;
            assert(out@ + replaced(s@.skip(i as int), pat@, to@) =~= before + replaced(
                rest,
                pat@,
                to@,
            ));
        }
    }
    assert(s@.skip(n as int) =~= Seq::<char>::empty());
    assert(out@ =~= out@ + replaced(s@.skip(n as int), pat@, to@));
    out
}

/// Puts `label` in place of the repetition placeholder of a register array's
/// name.
pub fn fill_placeholder(name: &str, label: &str) -> (r: String)
    ensures
        r@ == with_placeholder(name@, label@),
{
    proof {
        reveal_strlit("[%s]");
        reveal_strlit("%s");
        assert("[%s]"@ =~= bracket_placeholder());
        assert("%s"@ =~= bare_placeholder());
    }
    if contains_text(name, "[%s]") {
        replace_text(name, "[%s]", label)
    } else {
        replace_text(name, "%s", label)
    }
}


/// The index of the first `.` of `s` at or after `from`, or the length of `s`
/// where there is none.
pub open spec fn dot_index(s: Seq<char>, from: int) -> int
    decreases s.len() - from,
{
    if from < 0 || from >= s.len() {
        s.len() as int
    } else if s[from] == '.' {
        from
    } else {
        dot_index(s, from + 1)
    }
}

/// Whether a reference names its target with a qualifier, as `A.B`.
pub open spec fn is_qualified(s: Seq<char>) -> bool {
    dot_index(s, 0) < s.len()
}

/// The part of a qualified reference before its first `.`.
pub open spec fn qualifier(s: Seq<char>) -> Seq<char> {
    s.subrange(0, dot_index(s, 0))
}

/// The part of a qualified reference between its first `.` and the next one,
/// or the end.
pub open spec fn qualified_name(s: Seq<char>) -> Seq<char> {
    let start = dot_index(s, 0) + 1;
    s.subrange(start, dot_index(s, start))
}

fn find_dot(s: &str, n: usize, from: usize) -> (k: usize)
    requires
        n == s@.len(),
        from <= n,
    ensures
        k == dot_index(s@, from as int),
        from <= k <= n,
{
    let mut k = from;
    while k < n
        invariant
            n == s@.len(),
            from <= k <= n,
            dot_index(s@, k as int) == dot_index(s@, from as int),
        decreases n - k,
    {
        if s.get_char(k) == '.' {
            return k;
        }
        k += 1;
    }
    k
}

/// Splits a qualified reference `A.B` into `A` and `B`; `None` where the
/// reference holds no `.`.
pub fn split_reference(s: &str) -> (r: Option<(String, String)>)
    ensures
        r is Some <==> is_qualified(s@),
        r matches Some((a, b)) ==> a@ == qualifier(s@) && b@ == qualified_name(s@),
{
    let n = s.unicode_len();
    let first = find_dot(s, n, 0);
    if first == n {
        return None;
    }
    let second = find_dot(s, n, first + 1);
    let a = s.substring_char(0, first).to_owned();
    let b = s.substring_char(first + 1, second).to_owned();
    Some((a, b))
}

/// Whether `char::is_whitespace` holds of `c`.
pub uninterp spec fn is_whitespace(c: char) -> bool;

/// Calls `char::is_whitespace`, which depends on the character alone; the
/// contract gives its result the name `is_whitespace`.
#[verifier::external_body]
fn char_is_whitespace(c: char) -> (r: bool)
    ensures
        r == is_whitespace(c),
{
    c.is_whitespace()
}

/// `s` with each run of whitespace turned into one space, and none at either
/// end: its words joined by single spaces.
pub open spec fn respaced(s: Seq<char>) -> Seq<char>
    decreases s.len(),
{
    if s.len() == 0 {
        s
    } else {
        let before = respaced(s.drop_last());
        let c = s.last();
        if is_whitespace(c) {
            before
        } else if before.len() > 0 && is_whitespace(s[s.len() - 2]) {
            before.push(' ').push(c)
        } else {
            before.push(c)
        }
    }
}

/// Normalises the whitespace of a description: words joined by single spaces.
pub fn respace(s: &str) -> (r: String)
    ensures
        r@ == respaced(s@),
{
    let n = s.unicode_len();
    let mut out = String::new();
    let mut gap = false;
    let mut i: usize = 0;
    assert(s@.take(0) =~= Seq::<char>::empty());
    while i < n
        invariant
            n == s@.len(),
            i <= n,
            out@ == respaced(s@.take(i as int)),
            gap == (i > 0 && is_whitespace(s@[i - 1])),
        decreases n - i,
    {
        let c = s.get_char(i);
        proof {
            let next = s@.take(i + 1);
            assert(next.drop_last() =~= s@.take(i as int));
            assert(next.last() == c);
            if i > 0 {
                assert(next[next.len() - 2] == s@[i - 1]);
            }
        }
        if char_is_whitespace(c) {
            gap = true;
        } else {
            if gap && out.as_str().unicode_len() > 0 {
                push_char(&mut out, ' ');
            }
            push_char(&mut out, c);
            gap = false;
        }
        i += 1;
    }
    assert(s@.take(n as int) =~= s@);
    out
}

/// The lower-case name that marks a field as reserved.
pub open spec fn reserved_name() -> Seq<char> {
    seq!['r', 'e', 's', 'e', 'r', 'v', 'e', 'd']
}

/// Whether a field's name marks it as reserved: in lower case it reads
/// `reserved`.
pub open spec fn is_reserved_name(name: Seq<char>) -> bool {
    lowercase(name) == reserved_name()
}

/// Whether a field's name marks it as reserved.
pub fn is_reserved(name: &str) -> (r: bool)
    ensures
        r == is_reserved_name(name@),
{
    proof {
        reveal_strlit("reserved");
        assert("reserved"@ =~= reserved_name());
    }
    let lower = std_lowercase(name);
    same_text(lower.as_str(), "reserved")
}

} // verus!
