//! Temporary passwords that satisfy the pool's password policy.

use vstd::prelude::*;
use vstd::multiset::Multiset;

use crate::text::{char_from_ascii, is_space, push_char};

verus! {

/// Longer than any default policy asks for, still short enough to read aloud.
pub const TARGET_LENGTH: usize = 20;

/// Cognito rejects a temporary password longer than this.
pub const MAX_LENGTH: usize = 256;

/// How many draws `below` makes before giving up. A draw is rejected with
/// probability under one half for every bound, and under 2^-24 for those a
/// password needs, so the limit is never reached in practice: it is there
/// because every loop here must end.
const MAX_DRAWS: u64 = 18446744073709551615;

pub open spec fn is_lower(c: char) -> bool {
    'a' <= c && c <= 'z'
}

pub open spec fn is_upper(c: char) -> bool {
    'A' <= c && c <= 'Z'
}

pub open spec fn is_digit(c: char) -> bool {
    '0' <= c && c <= '9'
}

/// A subset of the symbols Cognito accepts, leaving out the quoting characters
/// that get mangled when a password is pasted into a shell or a spreadsheet.
pub open spec fn is_symbol(c: char) -> bool {
    ||| c == '!'
    ||| c == '#'
    ||| c == '$'
    ||| c == '%'
    ||| c == '&'
    ||| c == '*'
    ||| c == '+'
    ||| c == '-'
    ||| c == '='
    ||| c == '?'
    ||| c == '@'
    ||| c == '^'
    ||| c == '_'
}

/// Every character a generated password is drawn from.
pub open spec fn in_alphabet(c: char) -> bool {
    is_lower(c) || is_upper(c) || is_digit(c) || is_symbol(c)
}

/// The pool's password complexity requirements, as far as generating a
/// password needs to care about them.
#[derive(Debug, Clone, Copy)]
pub struct Policy {
    pub minimum_length: usize,
    pub require_uppercase: bool,
    pub require_lowercase: bool,
    pub require_numbers: bool,
    pub require_symbols: bool,
}

impl Default for Policy {
    /// What Cognito applies when a pool does not spell out a policy.
    fn default() -> (r: Self)
        ensures
            r.minimum_length == 8,
            r.require_uppercase && r.require_lowercase && r.require_numbers && r.require_symbols,
    {
        Policy {
            minimum_length: 8,
            require_uppercase: true,
            require_lowercase: true,
            require_numbers: true,
            require_symbols: true,
        }
    }
}

impl Policy {
    /// The policy as DescribeUserPool states it. A minimum length that is
    /// missing or negative falls back to the default one.
    pub fn from_parts(
        minimum_length: Option<i32>,
        require_uppercase: bool,
        require_lowercase: bool,
        require_numbers: bool,
        require_symbols: bool,
    ) -> (r: Policy)
        ensures
            r.minimum_length == match minimum_length {
                Some(n) if n >= 0 => n as int,
                _ => 8,
            },
            r.require_uppercase == require_uppercase,
            r.require_lowercase == require_lowercase,
            r.require_numbers == require_numbers,
            r.require_symbols == require_symbols,
    {
        let minimum_length: usize = match minimum_length {
            Some(n) if n >= 0 => n as usize,
            _ => Policy::default().minimum_length,
        };
        Policy {
            minimum_length,
            require_uppercase,
            require_lowercase,
            require_numbers,
            require_symbols,
        }
    }
}

/// The length of a password generated for a policy with minimum `minimum`:
/// the minimum clamped to `[TARGET_LENGTH, MAX_LENGTH]`.
pub open spec fn target_length(minimum: usize) -> int {
    if minimum < TARGET_LENGTH {
        TARGET_LENGTH as int
    } else if minimum > MAX_LENGTH {
        MAX_LENGTH as int
    } else {
        minimum as int
    }
}

/// `password` has at least one character of every class `policy` requires.
pub open spec fn satisfies(password: Seq<char>, policy: Policy) -> bool {
    &&& policy.require_lowercase ==> exists|i: int| 0 <= i < password.len() && is_lower(#[trigger] password[i])
    &&& policy.require_uppercase ==> exists|i: int| 0 <= i < password.len() && is_upper(#[trigger] password[i])
    &&& policy.require_numbers ==> exists|i: int| 0 <= i < password.len() && is_digit(#[trigger] password[i])
    &&& policy.require_symbols ==> exists|i: int| 0 <= i < password.len() && is_symbol(#[trigger] password[i])
}

/// Why no password could be generated.
#[derive(Debug)]
pub enum GenerateError {
    /// The system randomness source failed.
    Randomness(getrandom::Error),
    /// Every draw of a bounded value was rejected, which a working source
    /// does not do.
    NoUniformDraw,
}

#[verifier::external_type_specification]
#[verifier::external_body]
pub struct ExRandomnessError(getrandom::Error);

/// Four bytes from the system randomness source (`getrandom::fill`), read as a
/// little-endian `u32`. Any value may come back.
#[verifier::external_body]
fn random_u32() -> (r: Result<u32, getrandom::Error>) {
    let mut buf = [0u8; 4];
    getrandom::fill(&mut buf)?;
    Ok(u32::from_le_bytes(buf))
}

/// What one draw of the randomness source gives for `bound`: its remainder by
/// `bound`, or nothing where the draw lands in the partial final block of
/// `[0, 2^32)`. Rejecting those keeps every value below `bound` equally
/// likely; otherwise the low values would come up slightly more often.
pub open spec fn draw_value(value: u32, bound: usize) -> Option<usize> {
    if (value as int) < 4294967296int - 4294967296int % (bound as int) {
        Some((value as int % bound as int) as usize)
    } else {
        None
    }
}

/// `below` reads a bound of zero as one, so that the modulo never divides by
/// zero.
pub open spec fn effective_bound(bound: usize) -> usize {
    if bound == 0 {
        1
    } else {
        bound
    }
}

proof fn lemma_draw_value_below(value: u32, bound: usize)
    requires
        0 < bound,
    ensures
        draw_value(value, bound) matches Some(v) ==> v < bound,
{
    let x: int = value as int;
    let b: int = bound as int;
    assert(0 <= x % b < b) by (nonlinear_arith)
        requires
            0 <= x,
            0 < b,
    ;
}

/// The value below `bound` that the draw `value` gives, or `None` where the
/// draw is rejected.
pub fn from_draw(value: u32, bound: usize) -> (r: Option<usize>)
    requires
        0 < bound <= 4294967296,
    ensures
        r == draw_value(value, bound),
{
    let bound64: u64 = bound as u64;
    let span: u64 = 4294967296;
    let limit: u64 = span - (span % bound64);
    let v: u64 = value as u64;
    if v < limit {
        proof {
            lemma_draw_value_below(value, bound);
        }
        Some((v % bound64) as usize)
    } else {
        None
    }
}

/// The values a stream of draws gives for a list of bounds, one after the
/// other: each bound takes the first draw after the previous one that is not
/// rejected. `None` where the stream runs out first.
pub open spec fn drawn(draws: Seq<u32>, bounds: Seq<usize>) -> Option<Seq<usize>>
    decreases draws.len(),
{
    if bounds.len() == 0 {
        Some(Seq::empty())
    } else if draws.len() == 0 {
        None
    } else {
        match draw_value(draws[0], bounds[0]) {
            Some(v) => match drawn(draws.drop_first(), bounds.drop_first()) {
                Some(rest) => Some(seq![v] + rest),
                None => None,
            },
            None => drawn(draws.drop_first(), bounds),
        }
    }
}

/// One value below each bound, in order.
pub open spec fn choices_valid(choices: Seq<usize>, bounds: Seq<usize>) -> bool {
    &&& choices.len() == bounds.len()
    &&& forall|t: int| 0 <= t < choices.len() ==> choices[t] < bounds[t]
}

/// What `drawn` gives is one valid value per bound.
proof fn lemma_drawn_valid(draws: Seq<u32>, bounds: Seq<usize>)
    requires
        forall|t: int| 0 <= t < bounds.len() ==> 0 < #[trigger] bounds[t],
    ensures
        drawn(draws, bounds) matches Some(cs) ==> choices_valid(cs, bounds),
    decreases draws.len(),
{
    if bounds.len() > 0 && draws.len() > 0 {
        lemma_draw_value_below(draws[0], bounds[0]);
        match draw_value(draws[0], bounds[0]) {
            Some(v) => {
                let rest_b = bounds.drop_first();
                assert forall|t: int| 0 <= t < rest_b.len() implies 0 < #[trigger] rest_b[t] by {
                    assert(rest_b[t] == bounds[t + 1]);
                }
                lemma_drawn_valid(draws.drop_first(), rest_b);
                if let Some(rest) = drawn(draws.drop_first(), rest_b) {
                    let cs = seq![v] + rest;
                    assert forall|t: int| 0 <= t < cs.len() implies cs[t] < bounds[t] by {
                        if t > 0 {
                            assert(cs[t] == rest[t - 1]);
                            assert(bounds[t] == rest_b[t - 1]);
                        }
                    }
                }
            },
            None => {
                lemma_drawn_valid(draws.drop_first(), bounds);
            },
        }
    }
}

/// Draws that are each accepted give exactly their values.
proof fn lemma_drawn_of_accepted(draws: Seq<u32>, bounds: Seq<usize>, choices: Seq<usize>)
    requires
        draws.len() == bounds.len(),
        choices.len() == bounds.len(),
        forall|t: int| 0 <= t < bounds.len() ==> draw_value(draws[t], bounds[t]) == Some(#[trigger] choices[t]),
    ensures
        drawn(draws, bounds) == Some(choices),
    decreases draws.len(),
{
    if bounds.len() > 0 {
        assert(draw_value(draws[0], bounds[0]) == Some(choices[0]));
        let (d, b, c) = (draws.drop_first(), bounds.drop_first(), choices.drop_first());
        assert forall|t: int| 0 <= t < b.len() implies draw_value(d[t], b[t]) == Some(#[trigger] c[t]) by {
            assert(choices[t + 1] == c[t]);
        }
        lemma_drawn_of_accepted(d, b, c);
        assert(seq![choices[0]] + c =~= choices);
    } else {
        assert(choices =~= Seq::empty());
    }
}

/// A value below `bound` (zero read as one), drawn uniformly from the system
/// randomness source: the first draw that `from_draw` does not reject gives it.
pub fn below(bound: usize) -> (r: Result<usize, GenerateError>)
    requires
        bound <= 4294967296,
    ensures
        r matches Ok(v) ==> v < effective_bound(bound) && exists|d: u32|
            draw_value(d, effective_bound(bound)) == Some(v),
{
    let b: usize = if bound == 0 {
        1
    } else {
        bound
    };
    let mut draws: u64 = 0;
    while draws < MAX_DRAWS
        invariant
            b == effective_bound(bound),
            0 < b <= 4294967296,
        decreases MAX_DRAWS - draws,
    {
        let value = match random_u32() {
            Ok(v) => v,
            Err(e) => return Err(GenerateError::Randomness(e)),
        };
        match from_draw(value, b) {
            Some(v) => {
                proof {
                    lemma_draw_value_below(value, b);
                }
                return Ok(v);
            },
            None => {},
        }
        draws = draws + 1;
    }
    Err(GenerateError::NoUniformDraw)
}

/// A character drawn uniformly from `alphabet`: the one at the index that
/// `below` draws.
pub fn pick(alphabet: &[char]) -> (r: Result<char, GenerateError>)
    requires
        0 < alphabet@.len() <= 4294967296,
    ensures
        r matches Ok(c) ==> alphabet@.contains(c) && exists|d: u32, i: usize|
            #![trigger draw_value(d, alphabet@.len() as usize), alphabet@[i as int]]
            draw_value(d, alphabet@.len() as usize) == Some(i) && i < alphabet@.len() && c
                == alphabet@[i as int],
{
    let i = below(alphabet.len())?;
    proof {
        let d = choose|d: u32| #[trigger] draw_value(d, alphabet@.len() as usize) == Some(i);
        assert(draw_value(d, alphabet@.len() as usize) == Some(i) && alphabet@[i as int]
            == alphabet@[i as int]);
    }
    Ok(alphabet[i])
}

/// `s` with the characters at `i` and `j` exchanged.
pub open spec fn swapped(s: Seq<char>, i: int, j: int) -> Seq<char> {
    s.update(i, s[j]).update(j, s[i])
}

/// Fisher-Yates on `s`, whose first `n` places are still to be shuffled: each
/// step exchanges the last of them with the place that the next of `js`
/// names, and leaves it be.
pub open spec fn fisher_yates(s: Seq<char>, js: Seq<usize>, n: int) -> Seq<char>
    decreases js.len(),
{
    if n <= 1 || js.len() == 0 {
        s
    } else {
        fisher_yates(swapped(s, n - 1, js[0] as int), js.drop_first(), n - 1)
    }
}

/// The bounds of the draws that shuffle `n` characters: `n`, `n - 1`, down
/// to 2.
pub open spec fn shuffle_bounds(n: int) -> Seq<usize> {
    Seq::new(if n > 1 { (n - 1) as nat } else { 0 }, |t: int| (n - t) as usize)
}

/// What a stream of draws makes of `s` when it shuffles it.
pub open spec fn shuffled_by(s: Seq<char>, draws: Seq<u32>) -> Option<Seq<char>> {
    match drawn(draws, shuffle_bounds(s.len() as int)) {
        Some(js) => Some(fisher_yates(s, js, s.len() as int)),
        None => None,
    }
}

proof fn lemma_fisher_yates_push(s: Seq<char>, js: Seq<usize>, n: int, j: usize)
    requires
        js.len() + 1 < n,
    ensures
        fisher_yates(s, js.push(j), n) == swapped(fisher_yates(s, js, n), n - js.len() - 1, j as int),
    decreases js.len(),
{
    let longer = js.push(j);
    assert(longer[0] == if js.len() == 0 { j } else { js[0] });
    if js.len() == 0 {
        assert(longer.drop_first() =~= Seq::<usize>::empty());
        assert(fisher_yates(s, js, n) == s);
        let s1 = swapped(s, n - 1, j as int);
        assert(fisher_yates(s1, Seq::<usize>::empty(), n - 1) == s1);
        assert(fisher_yates(s, longer, n) == fisher_yates(s1, longer.drop_first(), n - 1));
    } else {
        let s1 = swapped(s, n - 1, js[0] as int);
        assert(longer.drop_first() =~= js.drop_first().push(j));
        lemma_fisher_yates_push(s1, js.drop_first(), n - 1, j);
        assert(fisher_yates(s, longer, n) == fisher_yates(s1, longer.drop_first(), n - 1));
        assert(fisher_yates(s, js, n) == fisher_yates(s1, js.drop_first(), n - 1));
    }
}

proof fn lemma_swap_keeps_multiset(s: Seq<char>, i: int, j: int)
    requires
        0 <= i < s.len(),
        0 <= j < s.len(),
    ensures
        swapped(s, i, j).to_multiset() == s.to_multiset(),
{
    broadcast use vstd::seq_lib::group_to_multiset_ensures;
    broadcast use vstd::multiset::group_multiset_properties;

    let s1 = s.update(i, s[j]);
    let s2 = s1.update(j, s[i]);
    assert(s1.to_multiset() == s.to_multiset().insert(s[j]).remove(s[i]));
    assert(s2.to_multiset() == s1.to_multiset().insert(s[i]).remove(s1[j]));
    if i == j {
        assert(s2 =~= s);
    } else {
        assert(s1[j] == s[j]);
        let m = s.to_multiset();
        assert(m.count(s[i]) > 0);
        assert(m.count(s[j]) > 0);
        assert(m.insert(s[j]).remove(s[i]).insert(s[i]).remove(s[j]) =~= m);
    }
}

/// Fisher-Yates, so the required characters do not sit in a fixed order: the
/// characters come back as `shuffled_by` some stream of draws makes them.
/// They are only ever swapped, whether or not randomness runs out.
pub fn shuffle(chars: &mut Vec<char>) -> (r: Result<(), GenerateError>)
    requires
        old(chars)@.len() <= 4294967296,
    ensures
        final(chars)@.to_multiset() == old(chars)@.to_multiset(),
        final(chars)@.len() == old(chars)@.len(),
        old(chars)@.len() <= 1 ==> r is Ok && final(chars)@ == old(chars)@,
        r is Ok ==> exists|draws: Seq<u32>| #[trigger]
            shuffled_by(old(chars)@, draws) == Some(final(chars)@),
{
    let ghost original = chars@;
    let ghost n: int = chars@.len() as int;
    let ghost mut js: Seq<usize> = Seq::empty();
    let ghost mut draws: Seq<u32> = Seq::empty();
    let mut index = chars.len();
    while index > 1
        invariant
            original == old(chars)@,
            index <= chars@.len() == original.len() == n <= 4294967296,
            chars@.to_multiset() == original.to_multiset(),
            n <= 1 ==> chars@ == original,
            n > 0 ==> index >= 1,
            index + js.len() == n,
            draws.len() == js.len(),
            forall|t: int|
                0 <= t < js.len() ==> draw_value(draws[t], shuffle_bounds(n)[t]) == Some(
                    #[trigger] js[t],
                ),
            chars@ == fisher_yates(original, js, n),
        decreases index,
    {
        index = index - 1;
        let j = below(index + 1)?;
        let a = chars[index];
        let b = chars[j];
        let ghost before = chars@;
        proof {
            lemma_swap_keeps_multiset(before, index as int, j as int);
            lemma_fisher_yates_push(original, js, n, j);
            assert(shuffle_bounds(n)[js.len() as int] == index + 1);
            let d = choose|d: u32| #[trigger] draw_value(d, effective_bound((index + 1) as usize)) == Some(j);
            js = js.push(j);
            draws = draws.push(d);
        }
        chars.set(index, b);
        chars.set(j, a);
        assert(chars@ == swapped(before, index as int, j as int));
    }
    proof {
        assert(js.len() == shuffle_bounds(n).len());
        lemma_drawn_of_accepted(draws, shuffle_bounds(n), js);
        assert(shuffled_by(original, draws) == Some(chars@));
    }
    Ok(())
}

/// `count` consecutive characters of ASCII, starting at `first`.
pub open spec fn ascii_run(first: int, count: nat) -> Seq<char> {
    Seq::new(count, |i: int| ((first + i) as u32) as char)
}

pub open spec fn lower_chars() -> Seq<char> {
    ascii_run(97, 26)
}

pub open spec fn upper_chars() -> Seq<char> {
    ascii_run(65, 26)
}

pub open spec fn digit_chars() -> Seq<char> {
    ascii_run(48, 10)
}

pub open spec fn symbol_chars() -> Seq<char> {
    seq!['!', '#', '$', '%', '&', '*', '+', '-', '=', '?', '@', '^', '_']
}

/// Every class, even those a policy does not demand: a policy states
/// minimums, never that a character is forbidden.
pub open spec fn alphabet_chars() -> Seq<char> {
    lower_chars() + upper_chars() + digit_chars() + symbol_chars()
}

pub open spec fn with_class(sets: Seq<Seq<char>>, wanted: bool, set: Seq<char>) -> Seq<Seq<char>> {
    if wanted {
        sets.push(set)
    } else {
        sets
    }
}

/// The character classes `policy` requires, in the order lower case, upper
/// case, digits, symbols.
pub open spec fn required_sets(policy: Policy) -> Seq<Seq<char>> {
    let lower = with_class(Seq::empty(), policy.require_lowercase, lower_chars());
    let upper = with_class(lower, policy.require_uppercase, upper_chars());
    let digits = with_class(upper, policy.require_numbers, digit_chars());
    with_class(digits, policy.require_symbols, symbol_chars())
}

/// The bounds of the draws a password takes, in the order they are made: one
/// character from each required class, then characters from the whole
/// alphabet up to the length, then the shuffle.
pub open spec fn password_bounds(policy: Policy) -> Seq<usize> {
    let sets = required_sets(policy);
    let n = target_length(policy.minimum_length);
    Seq::new(sets.len(), |i: int| sets[i].len() as usize) + Seq::new(
        (n - sets.len()) as nat,
        |i: int| 75usize,
    ) + shuffle_bounds(n)
}

/// The characters picked by `choices`, before the shuffle: the first of each
/// required class, the rest from the whole alphabet.
pub open spec fn picked(policy: Policy, choices: Seq<usize>) -> Seq<char> {
    let sets = required_sets(policy);
    Seq::new(
        target_length(policy.minimum_length) as nat,
        |i: int|
            if i < sets.len() {
                sets[i][choices[i] as int]
            } else {
                alphabet_chars()[choices[i] as int]
            },
    )
}

/// The password that `choices`, one value below each of
/// `password_bounds(policy)`, make: the picked characters, shuffled by the
/// values that follow them.
pub open spec fn built(policy: Policy, choices: Seq<usize>) -> Seq<char> {
    let n = target_length(policy.minimum_length);
    fisher_yates(picked(policy, choices), choices.subrange(n, choices.len() as int), n)
}

/// The password that a stream of draws of the randomness source makes for
/// `policy`, or `None` where the stream is too short.
pub open spec fn password_of(policy: Policy, draws: Seq<u32>) -> Option<Seq<char>> {
    match drawn(draws, password_bounds(policy)) {
        Some(choices) => Some(built(policy, choices)),
        None => None,
    }
}

fn lower_set() -> (r: Vec<char>)
    ensures
        r@ == lower_chars(),
        forall|i: int| 0 <= i < r@.len() ==> is_lower(#[trigger] r@[i]),
{
    let mut r: Vec<char> = Vec::new();
    let mut b: u8 = 97;
    while b <= 122
        invariant
            97 <= b <= 123,
            r@ == ascii_run(97, (b - 97) as nat),
            forall|i: int| 0 <= i < r@.len() ==> is_lower(#[trigger] r@[i]),
        decreases 123 - b,
    {
        r.push(char_from_ascii(b));
        b = b + 1;
        assert(r@ =~= ascii_run(97, (b - 97) as nat));
    }
    r
}

fn upper_set() -> (r: Vec<char>)
    ensures
        r@ == upper_chars(),
        forall|i: int| 0 <= i < r@.len() ==> is_upper(#[trigger] r@[i]),
{
    let mut r: Vec<char> = Vec::new();
    let mut b: u8 = 65;
    while b <= 90
        invariant
            65 <= b <= 91,
            r@ == ascii_run(65, (b - 65) as nat),
            forall|i: int| 0 <= i < r@.len() ==> is_upper(#[trigger] r@[i]),
        decreases 91 - b,
    {
        r.push(char_from_ascii(b));
        b = b + 1;
        assert(r@ =~= ascii_run(65, (b - 65) as nat));
    }
    r
}

fn digit_set() -> (r: Vec<char>)
    ensures
        r@ == digit_chars(),
        forall|i: int| 0 <= i < r@.len() ==> is_digit(#[trigger] r@[i]),
{
    let mut r: Vec<char> = Vec::new();
    let mut b: u8 = 48;
    while b <= 57
        invariant
            48 <= b <= 58,
            r@ == ascii_run(48, (b - 48) as nat),
            forall|i: int| 0 <= i < r@.len() ==> is_digit(#[trigger] r@[i]),
        decreases 58 - b,
    {
        r.push(char_from_ascii(b));
        b = b + 1;
        assert(r@ =~= ascii_run(48, (b - 48) as nat));
    }
    r
}

fn symbol_set() -> (r: Vec<char>)
    ensures
        r@ == symbol_chars(),
        forall|i: int| 0 <= i < r@.len() ==> is_symbol(#[trigger] r@[i]),
{
    let r = vec!['!', '#', '$', '%', '&', '*', '+', '-', '=', '?', '@', '^', '_'];
    assert(r@ =~= symbol_chars());
    r
}

fn alphabet() -> (r: Vec<char>)
    ensures
        r@ == alphabet_chars(),
        forall|i: int| 0 <= i < r@.len() ==> in_alphabet(#[trigger] r@[i]),
{
    let mut r = lower_set();
    let mut more = upper_set();
    r.append(&mut more);
    let mut more = digit_set();
    r.append(&mut more);
    let mut more = symbol_set();
    r.append(&mut more);
    assert forall|i: int| 0 <= i < r@.len() implies in_alphabet(#[trigger] r@[i]) by {}
    r
}

/// The password length for a policy: its minimum, clamped to
/// `[TARGET_LENGTH, MAX_LENGTH]`.
fn length_for(policy: &Policy) -> (r: usize)
    ensures
        r == target_length(policy.minimum_length),
{
    if policy.minimum_length < TARGET_LENGTH {
        TARGET_LENGTH
    } else if policy.minimum_length > MAX_LENGTH {
        MAX_LENGTH
    } else {
        policy.minimum_length
    }
}

/// `password_bounds(policy)`, each of them between 2 and `MAX_LENGTH`.
fn bounds_for(policy: &Policy) -> (r: Vec<usize>)
    ensures
        r@ == password_bounds(*policy),
        forall|t: int| 0 <= t < r@.len() ==> 1 < #[trigger] r@[t] <= MAX_LENGTH,
{
    let n = length_for(policy);
    let ghost sets = required_sets(*policy);
    let mut r: Vec<usize> = Vec::new();
    if policy.require_lowercase {
        r.push(26);
    }
    if policy.require_uppercase {
        r.push(26);
    }
    if policy.require_numbers {
        r.push(10);
    }
    if policy.require_symbols {
        r.push(13);
    }
    let ghost sizes = Seq::new(sets.len(), |i: int| sets[i].len() as usize);
    assert(r@ =~= sizes);
    let k = r.len();
    while r.len() < n
        invariant
            k == sets.len() <= 4,
            n == target_length(policy.minimum_length),
            k <= r@.len() <= n,
            r@ == sizes + Seq::new((r@.len() - k) as nat, |i: int| 75usize),
            forall|t: int| 0 <= t < r@.len() ==> 1 < #[trigger] r@[t] <= MAX_LENGTH,
        decreases n - r@.len(),
    {
        r.push(75);
        assert(r@ =~= sizes + Seq::new((r@.len() - k) as nat, |i: int| 75usize));
    }
    let ghost fill = r@;
    let mut t: usize = 0;
    while t + 1 < n
        invariant
            n == target_length(policy.minimum_length),
            fill.len() == n,
            t < n,
            r@ == fill + shuffle_bounds(n as int).subrange(0, t as int),
            forall|u: int| 0 <= u < r@.len() ==> 1 < #[trigger] r@[u] <= MAX_LENGTH,
        decreases n - t,
    {
        r.push(n - t);
        t = t + 1;
        assert(r@ =~= fill + shuffle_bounds(n as int).subrange(0, t as int));
    }
    assert(shuffle_bounds(n as int).subrange(0, t as int) =~= shuffle_bounds(n as int));
    r
}

/// `o` with `front` put before the values it holds.
pub open spec fn after_prefix(front: Seq<usize>, o: Option<Seq<usize>>) -> Option<Seq<usize>> {
    match o {
        Some(rest) => Some(front + rest),
        None => None,
    }
}

/// Where each kind of draw sits in `password_bounds(policy)`.
proof fn lemma_bounds_at(policy: Policy)
    ensures
        ({
            let sets = required_sets(policy);
            let bounds = password_bounds(policy);
            let n = target_length(policy.minimum_length);
            &&& sets.len() <= 4
            &&& bounds.len() == 2 * n - 1
            &&& forall|t: int| 0 <= t < sets.len() ==> #[trigger] bounds[t] == sets[t].len()
            &&& forall|t: int| sets.len() <= t < n ==> #[trigger] bounds[t] == 75
            &&& forall|s: int| 0 <= s < n - 1 ==> #[trigger] bounds[n + s] == n - s
        }),
{
    let sets = required_sets(policy);
    let n = target_length(policy.minimum_length);
    let a = Seq::new(sets.len(), |i: int| sets[i].len() as usize);
    let b = Seq::new((n - sets.len()) as nat, |i: int| 75usize);
    let c = shuffle_bounds(n);
    let bounds = password_bounds(policy);
    assert(bounds == a + b + c);
    assert forall|t: int| 0 <= t < sets.len() implies #[trigger] bounds[t] == sets[t].len() by {
        assert((a + b)[t] == a[t]);
        assert(sets[t].len() <= 26);
    }
    assert forall|t: int| sets.len() <= t < n implies #[trigger] bounds[t] == 75 by {
        assert((a + b)[t] == b[t - sets.len()]);
    }
    assert forall|s: int| 0 <= s < n - 1 implies #[trigger] bounds[n + s] == n - s by {
        assert(bounds[n + s] == c[s]);
    }
}

/// `drawn(draws, bounds)`, computed.
fn draw_all(draws: &Vec<u32>, bounds: &Vec<usize>) -> (r: Option<Vec<usize>>)
    requires
        forall|t: int| 0 <= t < bounds@.len() ==> 0 < #[trigger] bounds@[t] <= 4294967296,
    ensures
        match r {
            Some(cs) => drawn(draws@, bounds@) == Some(cs@),
            None => drawn(draws@, bounds@) is None,
        },
{
    let mut out: Vec<usize> = Vec::new();
    let mut i: usize = 0;
    let mut k: usize = 0;
    proof {
        assert(draws@.subrange(0, draws@.len() as int) =~= draws@);
        assert(bounds@.subrange(0, bounds@.len() as int) =~= bounds@);
        if let Some(all) = drawn(draws@, bounds@) {
            assert(out@ + all =~= all);
        }
    }
    while k < bounds.len()
        invariant
            i <= draws@.len(),
            k <= bounds@.len(),
            forall|t: int| 0 <= t < bounds@.len() ==> 0 < #[trigger] bounds@[t] <= 4294967296,
            drawn(draws@, bounds@) == after_prefix(
                out@,
                drawn(draws@.subrange(i as int, draws@.len() as int), bounds@.subrange(k as int, bounds@.len() as int)),
            ),
        decreases draws@.len() - i,
    {
        let ghost d = draws@.subrange(i as int, draws@.len() as int);
        let ghost b = bounds@.subrange(k as int, bounds@.len() as int);
        if i == draws.len() {
            assert(d.len() == 0);
            return None;
        }
        assert(d.drop_first() =~= draws@.subrange(i + 1, draws@.len() as int));
        assert(d[0] == draws@[i as int]);
        assert(b[0] == bounds@[k as int]);
        match from_draw(draws[i], bounds[k]) {
            Some(v) => {
                assert(b.drop_first() =~= bounds@.subrange(k + 1, bounds@.len() as int));
                let ghost before = out@;
                out.push(v);
                proof {
                    let rest = drawn(d.drop_first(), b.drop_first());
                    if let Some(s) = rest {
                        assert(before + (seq![v] + s) =~= out@ + s);
                    }
                }
                k = k + 1;
            },
            None => {},
        }
        i = i + 1;
    }
    assert(bounds@.subrange(k as int, bounds@.len() as int).len() == 0);
    assert(out@ + Seq::<usize>::empty() =~= out@);
    Some(out)
}

/// Spells out the characters of `chars` as a `String`.
fn string_of(chars: &Vec<char>) -> (r: String)
    ensures
        r@ == chars@,
{
    let mut out = String::new();
    let mut i: usize = 0;
    while i < chars.len()
        invariant
            i <= chars@.len(),
            out@ == chars@.subrange(0, i as int),
        decreases chars@.len() - i,
    {
        push_char(&mut out, chars[i]);
        i = i + 1;
        assert(out@ =~= chars@.subrange(0, i as int));
    }
    assert(chars@.subrange(0, chars@.len() as int) =~= chars@);
    out
}

/// The password that `choices` make for `policy`: a character of each
/// required class, then characters of the whole alphabet up to the length,
/// all picked by their index, then shuffled by the remaining values.
pub fn password_from_choices(policy: &Policy, choices: &Vec<usize>) -> (r: String)
    requires
        choices_valid(choices@, password_bounds(*policy)),
    ensures
        r@ == built(*policy, choices@),
        r@.len() == target_length(policy.minimum_length),
        forall|i: int| 0 <= i < r@.len() ==> in_alphabet(#[trigger] r@[i]),
        satisfies(r@, *policy),
{
    let lower = lower_set();
    let upper = upper_set();
    let digits = digit_set();
    let symbols = symbol_set();
    let all = alphabet();
    let n = length_for(policy);
    let ghost bounds = password_bounds(*policy);
    let ghost sets = required_sets(*policy);
    let ghost choice = choices@;
    let ghost picks = picked(*policy, choice);
    proof {
        lemma_bounds_at(*policy);
    }

    let mut password: Vec<char> = Vec::new();
    let mut t: usize = 0;
    let ghost mut witness_lower: int = 0;
    let ghost mut witness_upper: int = 0;
    let ghost mut witness_digit: int = 0;
    let ghost mut witness_symbol: int = 0;
    assert(bounds.len() == 2 * n - 1);
    if policy.require_lowercase {
        assert(bounds[0] == 26);
        password.push(lower[choices[0]]);
        proof {
            witness_lower = 0;
        }
        t = t + 1;
    }
    if policy.require_uppercase {
        assert(bounds[t as int] == 26 && sets[t as int] == upper_chars());
        password.push(upper[choices[t]]);
        proof {
            witness_upper = t as int;
        }
        t = t + 1;
    }
    if policy.require_numbers {
        assert(bounds[t as int] == 10 && sets[t as int] == digit_chars());
        password.push(digits[choices[t]]);
        proof {
            witness_digit = t as int;
        }
        t = t + 1;
    }
    if policy.require_symbols {
        assert(bounds[t as int] == 13 && sets[t as int] == symbol_chars());
        password.push(symbols[choices[t]]);
        proof {
            witness_symbol = t as int;
        }
        t = t + 1;
    }
    assert(t == sets.len());
    assert(password@ =~= picks.subrange(0, t as int));
    let ghost required = password@;
    while password.len() < n
        invariant
            n == target_length(policy.minimum_length),
            bounds.len() == 2 * n - 1,
            choices@ == choice,
            choices_valid(choice, bounds),
            all@ == alphabet_chars(),
            sets.len() == t <= password@.len() <= n,
            picks == picked(*policy, choice),
            sets == required_sets(*policy),
            picks.len() == n,
            forall|u: int| sets.len() <= u < n ==> #[trigger] bounds[u] == 75,
            password@ == picks.subrange(0, password@.len() as int),
            required == picks.subrange(0, t as int),
            forall|i: int| 0 <= i < all@.len() ==> in_alphabet(#[trigger] all@[i]),
        decreases n - password@.len(),
    {
        let p = password.len();
        assert(bounds[p as int] == 75);
        assert(picks[p as int] == all@[choice[p as int] as int]);
        password.push(all[choices[p]]);
        assert(password@ =~= picks.subrange(0, password@.len() as int));
    }
    assert(password@ =~= picks);
    proof {
        assert forall|i: int| 0 <= i < picks.len() implies in_alphabet(#[trigger] picks[i]) by {
            if i >= t {
                assert(in_alphabet(all@[choice[i] as int]));
            }
        }
        if policy.require_lowercase {
            assert(is_lower(picks[witness_lower]));
        }
        if policy.require_uppercase {
            assert(is_upper(picks[witness_upper]));
        }
        if policy.require_numbers {
            assert(is_digit(picks[witness_digit]));
        }
        if policy.require_symbols {
            assert(is_symbol(picks[witness_symbol]));
        }
    }
    assert(satisfies(picks, *policy));

    let mut index = n;
    let mut s: usize = 0;
    while index > 1
        invariant
            n == target_length(policy.minimum_length),
            bounds.len() == 2 * n - 1,
            choices@ == choice,
            choices_valid(choice, bounds),
            index + s == n,
            picks.len() == n,
            forall|u: int| 0 <= u < n - 1 ==> #[trigger] bounds[n + u] == n - u,
            index >= 1,
            password@.len() == n,
            password@.to_multiset() == picks.to_multiset(),
            password@ == fisher_yates(picks, choice.subrange(n as int, n + s), n as int),
        decreases index,
    {
        index = index - 1;
        assert(bounds[n + s] == n - s);
        let j = choices[n + s];
        let a = password[index];
        let b = password[j];
        let ghost before = password@;
        proof {
            lemma_swap_keeps_multiset(before, index as int, j as int);
            lemma_fisher_yates_push(picks, choice.subrange(n as int, n + s), n as int, j);
            assert(choice.subrange(n as int, n + s + 1) =~= choice.subrange(n as int, n + s).push(j));
        }
        password.set(index, b);
        password.set(j, a);
        assert(password@ == swapped(before, index as int, j as int));
        s = s + 1;
    }
    assert(choice.subrange(n as int, n + s) =~= choice.subrange(n as int, choice.len() as int));
    proof {
        lemma_satisfies_kept(picks, password@, *policy);
    }
    string_of(&password)
}

/// The password that the stream of draws `draws` makes for `policy`, exactly
/// as `generate` would make it from the same draws; `None` where the stream
/// runs out first.
pub fn password_from_draws(policy: &Policy, draws: &Vec<u32>) -> (r: Option<String>)
    ensures
        match r {
            Some(p) => password_of(*policy, draws@) == Some(p@),
            None => password_of(*policy, draws@) is None,
        },
        r matches Some(p) ==> {
            &&& p@.len() == target_length(policy.minimum_length)
            &&& forall|i: int| 0 <= i < p@.len() ==> in_alphabet(#[trigger] p@[i])
            &&& satisfies(p@, *policy)
        },
{
    let bounds = bounds_for(policy);
    match draw_all(draws, &bounds) {
        Some(choices) => {
            proof {
                lemma_drawn_valid(draws@, bounds@);
            }
            Some(password_from_choices(policy, &choices))
        },
        None => None,
    }
}

/// A random temporary password that satisfies `policy`: as long as its
/// minimum, but at least `TARGET_LENGTH` and at most `MAX_LENGTH` characters,
/// drawn from letters, digits and a set of symbols, with at least one of
/// every class the policy requires. It is what `password_from_draws` makes of
/// the draws the system randomness source gave.
///
/// Cognito can generate one itself, but only when the new user has an email
/// address or a phone number it could deliver it to; generating it here keeps
/// "leave it blank" working for every pool.
pub fn generate(policy: &Policy) -> (r: Result<String, GenerateError>)
    ensures
        r matches Ok(p) ==> {
            &&& p@.len() == target_length(policy.minimum_length)
            &&& forall|i: int| 0 <= i < p@.len() ==> in_alphabet(#[trigger] p@[i])
            &&& satisfies(p@, *policy)
            &&& exists|draws: Seq<u32>| #[trigger] password_of(*policy, draws) == Some(p@)
        },
{
    let bounds = bounds_for(policy);
    let mut choices: Vec<usize> = Vec::new();
    let ghost mut draws: Seq<u32> = Seq::empty();
    let mut t: usize = 0;
    while t < bounds.len()
        invariant
            t <= bounds@.len(),
            bounds@ == password_bounds(*policy),
            forall|u: int| 0 <= u < bounds@.len() ==> 1 < #[trigger] bounds@[u] <= MAX_LENGTH,
            choices@.len() == t,
            draws.len() == t,
            forall|u: int|
                0 <= u < t ==> draw_value(draws[u], bounds@[u]) == Some(#[trigger] choices@[u]),
        decreases bounds@.len() - t,
    {
        let v = below(bounds[t])?;
        proof {
            let d = choose|d: u32| #[trigger] draw_value(d, effective_bound(bounds@[t as int])) == Some(v);
            draws = draws.push(d);
        }
        choices.push(v);
        t = t + 1;
    }
    proof {
        lemma_drawn_of_accepted(draws, bounds@, choices@);
        lemma_drawn_valid(draws, bounds@);
    }
    let p = password_from_choices(policy, &choices);
    assert(password_of(*policy, draws) == Some(p@));
    Ok(p)
}

proof fn lemma_contains_kept(before: Seq<char>, after: Seq<char>, c: char)
    requires
        after.to_multiset() == before.to_multiset(),
    ensures
        before.contains(c) <==> after.contains(c),
{
    broadcast use vstd::seq_lib::group_to_multiset_ensures;

    assert(before.contains(c) <==> before.to_multiset().count(c) > 0);
    assert(after.contains(c) <==> after.to_multiset().count(c) > 0);
}


proof fn lemma_satisfies_kept(before: Seq<char>, after: Seq<char>, policy: Policy)
    requires
        after.to_multiset() == before.to_multiset(),
        forall|i: int| 0 <= i < before.len() ==> in_alphabet(#[trigger] before[i]),
        satisfies(before, policy),
    ensures
        forall|i: int| 0 <= i < after.len() ==> in_alphabet(#[trigger] after[i]),
        satisfies(after, policy),
{
    assert forall|i: int| 0 <= i < after.len() implies in_alphabet(#[trigger] after[i]) by {
        lemma_contains_kept(before, after, after[i]);
        assert(after.contains(after[i]));
        let k = choose|k: int| 0 <= k < before.len() && before[k] == after[i];
        assert(in_alphabet(before[k]));
    }
    if policy.require_lowercase {
        let k = choose|k: int| 0 <= k < before.len() && is_lower(#[trigger] before[k]);
        lemma_contains_kept(before, after, before[k]);
        assert(before.contains(before[k]));
        let j = choose|j: int| 0 <= j < after.len() && after[j] == before[k];
        assert(is_lower(after[j]));
    }
    if policy.require_uppercase {
        let k = choose|k: int| 0 <= k < before.len() && is_upper(#[trigger] before[k]);
        lemma_contains_kept(before, after, before[k]);
        assert(before.contains(before[k]));
        let j = choose|j: int| 0 <= j < after.len() && after[j] == before[k];
        assert(is_upper(after[j]));
    }
    if policy.require_numbers {
        let k = choose|k: int| 0 <= k < before.len() && is_digit(#[trigger] before[k]);
        lemma_contains_kept(before, after, before[k]);
        assert(before.contains(before[k]));
        let j = choose|j: int| 0 <= j < after.len() && after[j] == before[k];
        assert(is_digit(after[j]));
    }
    if policy.require_symbols {
        let k = choose|k: int| 0 <= k < before.len() && is_symbol(#[trigger] before[k]);
        lemma_contains_kept(before, after, before[k]);
        assert(before.contains(before[k]));
        let j = choose|j: int| 0 <= j < after.len() && after[j] == before[k];
        assert(is_symbol(after[j]));
    }
}

/// A generated password never holds white space, which Cognito's
/// TemporaryPassword pattern `[\S]+` rejects.
pub proof fn law_generated_has_no_space(p: Seq<char>)
    requires
        forall|i: int| 0 <= i < p.len() ==> in_alphabet(#[trigger] p[i]),
    ensures
        forall|i: int| 0 <= i < p.len() ==> !is_space(#[trigger] p[i]),
{
    assert forall|i: int| 0 <= i < p.len() implies !is_space(#[trigger] p[i]) by {
        assert(in_alphabet(p[i]));
    }
}

} // verus!
