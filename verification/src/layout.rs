//! Reading the work group size out of a compute shader's source text.
//!
//! A GLSL compute shader declares its work group size in a line such as
//! `layout(local_size_x = 16, local_size_y = 16) in;`. The source is read
//! line by line (lines end at `'\n'`). For each axis, a line that holds the
//! axis key (`local_size_x`, `local_size_y` or `local_size_z`) sets that axis
//! when the text after the key has an `=` followed by a number. The number is
//! the first run of numeric characters after that `=` (and before the next
//! `=`, or the next occurrence of the key); it is read as a decimal `u32`.
//! Later lines override earlier ones; an axis that no line sets is `1`.
use vstd::prelude::*;

use crate::text::{char_is_numeric, is_ascii_digit, numeric_char};

verus! {

// ---------------------------------------------------------------------------
// The model
// ---------------------------------------------------------------------------

/// The first index at or after `i` at which `pat` occurs in `s`.
pub open spec fn first_match_from(s: Seq<char>, pat: Seq<char>, i: int) -> Option<int>
    decreases s.len() - i,
{
    if i < 0 || i >= s.len() || i + pat.len() > s.len() {
        None
    } else if s.subrange(i, i + pat.len()) == pat {
        Some(i)
    } else {
        first_match_from(s, pat, i + 1)
    }
}

/// The second piece that splitting `s` at every occurrence of `pat` gives:
/// the text between the first and the second occurrence of `pat` (or the end
/// of `s`). `None` when `pat` does not occur in `s`.
pub open spec fn second_piece(s: Seq<char>, pat: Seq<char>) -> Option<Seq<char>> {
    match first_match_from(s, pat, 0) {
        None => None,
        Some(i) => {
            let rest = s.subrange(i + pat.len(), s.len() as int);
            Some(
                match first_match_from(rest, pat, 0) {
                    None => rest,
                    Some(j) => rest.subrange(0, j),
                },
            )
        },
    }
}

/// The first index at or after `i` that holds a numeric character.
pub open spec fn first_numeric_from(s: Seq<char>, i: int) -> Option<int>
    decreases s.len() - i,
{
    if i < 0 || i >= s.len() {
        None
    } else if numeric_char(s[i]) {
        Some(i)
    } else {
        first_numeric_from(s, i + 1)
    }
}

/// The end of the run of numeric characters that starts at `i`.
pub open spec fn numeric_run_end(s: Seq<char>, i: int) -> int
    decreases s.len() - i,
{
    if 0 <= i < s.len() && numeric_char(s[i]) {
        numeric_run_end(s, i + 1)
    } else {
        i
    }
}

/// The first non-empty run of numeric characters in `s`, if there is one.
pub open spec fn first_numeric_run(s: Seq<char>) -> Option<Seq<char>> {
    match first_numeric_from(s, 0) {
        None => None,
        Some(i) => Some(s.subrange(i, numeric_run_end(s, i))),
    }
}

/// Every character of `s` is an ASCII decimal digit.
pub open spec fn all_ascii_digits(s: Seq<char>) -> bool {
    forall|k: int| 0 <= k < s.len() ==> is_ascii_digit(#[trigger] s[k])
}

/// The number that the digits of `s` spell in base ten.
pub open spec fn decimal_value(s: Seq<char>) -> int
    decreases s.len(),
{
    if s.len() == 0 {
        0
    } else {
        10 * decimal_value(s.drop_last()) + (s.last() as int - '0' as int)
    }
}

/// What reading `s` as a `u32` in base ten gives, for a text `s` that holds
/// no sign: a value when `s` is a non-empty string of ASCII digits whose value
/// fits in a `u32`, and nothing otherwise.
pub open spec fn parse_u32(s: Seq<char>) -> Option<u32> {
    if s.len() > 0 && all_ascii_digits(s) && decimal_value(s) <= u32::MAX {
        Some(decimal_value(s) as u32)
    } else {
        None
    }
}

/// The key that names one axis of the work group size, such as
/// `local_size_x` for `axis == 'x'`.
pub open spec fn size_key(axis: char) -> Seq<char> {
    seq!['l', 'o', 'c', 'a', 'l', '_', 's', 'i', 'z', 'e', '_', axis]
}

/// The value that one line sets for the axis named by `key`, if it sets one.
pub open spec fn line_setting(line: Seq<char>, key: Seq<char>) -> Option<u32> {
    match second_piece(line, key) {
        None => None,
        Some(after_key) => match second_piece(after_key, seq!['=']) {
            None => None,
            Some(value_text) => match first_numeric_run(value_text) {
                None => None,
                Some(run) => parse_u32(run),
            },
        },
    }
}

/// `current`, unless `setting` holds a new value.
pub open spec fn apply_setting(setting: Option<u32>, current: u32) -> u32 {
    match setting {
        Some(v) => v,
        None => current,
    }
}

/// The value of the axis named by `key` after reading the lines of `s` that
/// start at index `start`, with `current` as the value before them.
pub open spec fn size_from(s: Seq<char>, start: int, key: Seq<char>, current: u32) -> u32
    decreases s.len() - start,
{
    if start < 0 || start > s.len() {
        current
    } else {
        match first_match_from(s, seq!['\n'], start) {
            None => apply_setting(line_setting(s.subrange(start, s.len() as int), key), current),
            Some(i) => {
                proof {
                    lemma_first_match_bounds(s, seq!['\n'], start);
                }
                size_from(
                    s,
                    i + 1,
                    key,
                    apply_setting(line_setting(s.subrange(start, i), key), current),
                )
            },
        }
    }
}

/// The work group size `(x, y, z)` that the shader source `s` declares.
pub open spec fn declared_work_group_size(s: Seq<char>) -> (u32, u32, u32) {
    (
        size_from(s, 0, size_key('x'), 1),
        size_from(s, 0, size_key('y'), 1),
        size_from(s, 0, size_key('z'), 1),
    )
}

// ---------------------------------------------------------------------------
// Lemmas
// ---------------------------------------------------------------------------

/// A match found at or after `i` lies inside `s`, at or after `i`, and is a
/// real occurrence of `pat`; nothing between `i` and it is one.
pub proof fn lemma_first_match_bounds(s: Seq<char>, pat: Seq<char>, i: int)
    ensures
        match first_match_from(s, pat, i) {
            Some(k) => {
                &&& i <= k
                &&& 0 <= k
                &&& k < s.len()
                &&& k + pat.len() <= s.len()
                &&& s.subrange(k, k + pat.len()) == pat
                &&& forall|j: int|
                    i <= j < k ==> #[trigger] s.subrange(j, j + pat.len()) != pat
            },
            None => true,
        },
    decreases s.len() - i,
{
    if i < 0 || i >= s.len() || i + pat.len() > s.len() {
    } else if s.subrange(i, i + pat.len()) == pat {
    } else {
        lemma_first_match_bounds(s, pat, i + 1);
    }
}

/// When no match is found at or after `i`, `pat` occurs nowhere in `s` at
/// or after `i`.
proof fn lemma_no_match_from(s: Seq<char>, pat: Seq<char>, i: int)
    requires
        0 <= i,
        pat.len() > 0,
        first_match_from(s, pat, i) is None,
    ensures
        forall|j: int|
            i <= j && j + pat.len() <= s.len() ==> #[trigger] s.subrange(j, j + pat.len()) != pat,
    decreases s.len() - i,
{
    if i < s.len() && i + pat.len() <= s.len() {
        lemma_no_match_from(s, pat, i + 1);
    }
}

/// A pattern that occurs nowhere in `s` occurs nowhere in a part of it.
proof fn lemma_no_match_in_part(s: Seq<char>, pat: Seq<char>, a: int, b: int)
    requires
        0 <= a <= b <= s.len(),
        pat.len() > 0,
        first_match_from(s, pat, 0) is None,
    ensures
        first_match_from(s.subrange(a, b), pat, 0) is None,
{
    let part = s.subrange(a, b);
    lemma_no_match_from(s, pat, 0);
    lemma_first_match_bounds(part, pat, 0);
    match first_match_from(part, pat, 0) {
        Some(k) => {
            assert(part.subrange(k, k + pat.len()) =~= s.subrange(a + k, a + k + pat.len()));
        },
        None => {},
    }
}

/// Reading the lines of `s` from `start` on leaves an axis whose key occurs
/// nowhere in `s` at the value it had.
proof fn lemma_unset_axis_keeps(s: Seq<char>, key: Seq<char>, start: int, current: u32)
    requires
        key.len() > 0,
        first_match_from(s, key, 0) is None,
    ensures
        size_from(s, start, key, current) == current,
    decreases s.len() - start,
{
    if 0 <= start <= s.len() {
        lemma_first_match_bounds(s, seq!['\n'], start);
        match first_match_from(s, seq!['\n'], start) {
            None => {
                lemma_no_match_in_part(s, key, start, s.len() as int);
            },
            Some(i) => {
                lemma_no_match_in_part(s, key, start, i);
                lemma_unset_axis_keeps(s, key, i + 1, current);
            },
        }
    }
}

/// An axis whose key (`local_size_x`, `local_size_y` or `local_size_z`)
/// occurs nowhere in the source keeps its default size of `1`.
pub proof fn lemma_unset_axis_is_one(s: Seq<char>)
    ensures
        first_match_from(s, size_key('x'), 0) is None ==> declared_work_group_size(s).0 == 1,
        first_match_from(s, size_key('y'), 0) is None ==> declared_work_group_size(s).1 == 1,
        first_match_from(s, size_key('z'), 0) is None ==> declared_work_group_size(s).2 == 1,
{
    if first_match_from(s, size_key('x'), 0) is None {
        lemma_unset_axis_keeps(s, size_key('x'), 0, 1);
    }
    if first_match_from(s, size_key('y'), 0) is None {
        lemma_unset_axis_keeps(s, size_key('y'), 0, 1);
    }
    if first_match_from(s, size_key('z'), 0) is None {
        lemma_unset_axis_keeps(s, size_key('z'), 0, 1);
    }
}

/// An occurrence of `pat` at `j` is found by a search that starts at or
/// before `j`, at `j` or earlier.
proof fn lemma_first_match_found(s: Seq<char>, pat: Seq<char>, i: int, j: int)
    requires
        0 <= i <= j,
        pat.len() > 0,
        j + pat.len() <= s.len(),
        s.subrange(j, j + pat.len()) == pat,
    ensures
        first_match_from(s, pat, i) matches Some(k) && k <= j,
    decreases j - i,
{
    if s.subrange(i, i + pat.len()) != pat {
        lemma_first_match_found(s, pat, i + 1, j);
    }
}

/// Past the last line break of `prefix + "\n" + last`, no line break is
/// found.
proof fn lemma_no_break_in_last(prefix: Seq<char>, last: Seq<char>, start: int)
    requires
        prefix.len() + 1 <= start,
        !last.contains('\n'),
    ensures
        first_match_from(prefix + seq!['\n'] + last, seq!['\n'], start) is None,
    decreases (prefix + seq!['\n'] + last).len() - start,
{
    let s = prefix + seq!['\n'] + last;
    if start < s.len() {
        assert(s[start] == last[start - prefix.len() - 1]);
        assert(s.subrange(start, start + 1) != seq!['\n']) by {
            if s.subrange(start, start + 1) == seq!['\n'] {
                assert(s.subrange(start, start + 1)[0] == s[start]);
                assert(last.contains(last[start - prefix.len() - 1]));
            }
        }
        lemma_no_break_in_last(prefix, last, start + 1);
    }
}

/// Reading the lines of `prefix + "\n" + last` from any line of it on ends
/// with the value that the last line sets.
proof fn lemma_last_line_from(
    prefix: Seq<char>,
    last: Seq<char>,
    key: Seq<char>,
    v: u32,
    start: int,
    current: u32,
)
    requires
        0 <= start <= prefix.len() + 1,
        !last.contains('\n'),
        line_setting(last, key) == Some(v),
    ensures
        size_from(prefix + seq!['\n'] + last, start, key, current) == v,
    decreases prefix.len() + 1 - start,
{
    let s = prefix + seq!['\n'] + last;
    let p = prefix.len() as int;
    if start == p + 1 {
        lemma_no_break_in_last(prefix, last, start);
        assert(s.subrange(start, s.len() as int) =~= last);
    } else {
        assert(s.subrange(p, p + 1) =~= seq!['\n']);
        lemma_first_match_found(s, seq!['\n'], start, p);
        lemma_first_match_bounds(s, seq!['\n'], start);
        let i = first_match_from(s, seq!['\n'], start)->0;
        lemma_last_line_from(
            prefix,
            last,
            key,
            v,
            i + 1,
            apply_setting(line_setting(s.subrange(start, i), key), current),
        );
    }
}

/// Later lines override earlier ones: when the last line of a source sets an
/// axis, the source declares that size for it, whatever the lines before
/// say.
pub proof fn lemma_last_line_wins(prefix: Seq<char>, last: Seq<char>, axis: char, v: u32)
    requires
        !last.contains('\n'),
        line_setting(last, size_key(axis)) == Some(v),
    ensures
        size_from(prefix + seq!['\n'] + last, 0, size_key(axis), 1) == v,
        axis == 'x' ==> declared_work_group_size(prefix + seq!['\n'] + last).0 == v,
        axis == 'y' ==> declared_work_group_size(prefix + seq!['\n'] + last).1 == v,
        axis == 'z' ==> declared_work_group_size(prefix + seq!['\n'] + last).2 == v,
{
    lemma_last_line_from(prefix, last, size_key(axis), v, 0, 1);
}

/// Appending digits never makes a decimal value smaller.
pub proof fn lemma_decimal_value_grows(s: Seq<char>, k: int)
    requires
        0 <= k <= s.len(),
        all_ascii_digits(s),
    ensures
        decimal_value(s.take(k)) <= decimal_value(s),
        0 <= decimal_value(s.take(k)),
    decreases s.len(),
{
    if k == s.len() {
        assert(s.take(k) =~= s);
        lemma_decimal_value_nonneg(s);
    } else {
        assert(all_ascii_digits(s.drop_last()));
        lemma_decimal_value_grows(s.drop_last(), k);
        assert(s.drop_last().take(k) =~= s.take(k));
        lemma_decimal_value_nonneg(s.drop_last());
    }
}

/// The decimal value of a string of digits is never negative.
pub proof fn lemma_decimal_value_nonneg(s: Seq<char>)
    requires
        all_ascii_digits(s),
    ensures
        0 <= decimal_value(s),
    decreases s.len(),
{
    if s.len() > 0 {
        assert(all_ascii_digits(s.drop_last()));
        lemma_decimal_value_nonneg(s.drop_last());
    }
}

// ---------------------------------------------------------------------------
// Executable code
// ---------------------------------------------------------------------------

/// The characters `s[lo..hi]`, copied.
fn copy_range(s: &Vec<char>, lo: usize, hi: usize) -> (r: Vec<char>)
    requires
        lo <= hi <= s.len(),
    ensures
        r@ == s@.subrange(lo as int, hi as int),
{
    let mut r: Vec<char> = Vec::new();
    let mut k = lo;
    while k < hi
        invariant
            lo <= k <= hi <= s.len(),
            r@ == s@.subrange(lo as int, k as int),
        decreases hi - k,
    {
        r.push(s[k]);
        k = k + 1;
        assert(r@ =~= s@.subrange(lo as int, k as int));
    }
    r
}

/// Whether `pat` occurs in `s` at index `i`.
fn matches_at(s: &Vec<char>, pat: &Vec<char>, i: usize) -> (r: bool)
    requires
        i + pat.len() <= s.len(),
    ensures
        r == (s@.subrange(i as int, i + pat.len()) == pat@),
{
    let mut k: usize = 0;
    while k < pat.len()
        invariant
            i + pat.len() <= s.len(),
            k <= pat.len(),
            forall|j: int| 0 <= j < k ==> s@[i + j] == pat@[j],
        decreases pat.len() - k,
    {
        if s[i + k] != pat[k] {
            assert(s@.subrange(i as int, i + pat.len())[k as int] != pat@[k as int]);
            return false;
        }
        k = k + 1;
    }
    assert(s@.subrange(i as int, i + pat.len()) =~= pat@);
    true
}

/// The first index at or after `start` at which `pat` occurs in `s`.
fn find_from(s: &Vec<char>, pat: &Vec<char>, start: usize) -> (r: Option<usize>)
    ensures
        match r {
            Some(k) => first_match_from(s@, pat@, start as int) == Some(k as int),
            None => first_match_from(s@, pat@, start as int) is None,
        },
{
    let mut i = start;
    while i < s.len() && pat.len() <= s.len() - i
        invariant
            start <= i,
            first_match_from(s@, pat@, start as int) == first_match_from(s@, pat@, i as int),
        decreases s.len() - i,
    {
        if matches_at(s, pat, i) {
            return Some(i);
        }
        i = i + 1;
    }
    None
}

/// What `line_setting` says of `line` for `key`.
fn setting_of_line(line: &Vec<char>, key: &Vec<char>, equals: &Vec<char>) -> (r: Option<u32>)
    requires
        equals@ == seq!['='],
    ensures
        r == line_setting(line@, key@),
{
    let after_key = match second_piece_of(line, key) {
        None => {
            return None;
        },
        Some(p) => p,
    };
    let value_text = match second_piece_of(&after_key, equals) {
        None => {
            return None;
        },
        Some(p) => p,
    };
    match numeric_run_of(&value_text) {
        None => None,
        Some(run) => parse_decimal(&run),
    }
}

/// What `second_piece` says of `s` and `pat`.
fn second_piece_of(s: &Vec<char>, pat: &Vec<char>) -> (r: Option<Vec<char>>)
    ensures
        match r {
            Some(v) => second_piece(s@, pat@) == Some(v@),
            None => second_piece(s@, pat@) is None,
        },
{
    match find_from(s, pat, 0) {
        None => None,
        Some(i) => {
            proof {
                lemma_first_match_bounds(s@, pat@, 0);
                assert(i + pat.len() <= s.len());
            }
            let rest = copy_range(s, i + pat.len(), s.len());
            match find_from(&rest, pat, 0) {
                None => Some(rest),
                Some(j) => {
                    proof {
                        lemma_first_match_bounds(rest@, pat@, 0);
                    }
                    Some(copy_range(&rest, 0, j))
                },
            }
        },
    }
}

/// What `first_numeric_run` says of `s`.
fn numeric_run_of(s: &Vec<char>) -> (r: Option<Vec<char>>)
    ensures
        match r {
            Some(v) => first_numeric_run(s@) == Some(v@),
            None => first_numeric_run(s@) is None,
        },
{
    let mut i: usize = 0;
    while i < s.len() && !char_is_numeric(s[i])
        invariant
            i <= s.len(),
            first_numeric_from(s@, 0) == first_numeric_from(s@, i as int),
        decreases s.len() - i,
    {
        i = i + 1;
    }
    if i == s.len() {
        return None;
    }
    let mut j = i + 1;
    while j < s.len() && char_is_numeric(s[j])
        invariant
            i < j <= s.len(),
            numeric_run_end(s@, i as int) == numeric_run_end(s@, j as int),
        decreases s.len() - j,
    {
        j = j + 1;
    }
    Some(copy_range(s, i, j))
}

/// What `parse_u32` says of `s`.
fn parse_decimal(s: &Vec<char>) -> (r: Option<u32>)
    ensures
        r == parse_u32(s@),
{
    if s.len() == 0 {
        return None;
    }
    let mut value: u64 = 0;
    let mut k: usize = 0;
    while k < s.len()
        invariant
            k <= s.len(),
            all_ascii_digits(s@.take(k as int)),
            value == decimal_value(s@.take(k as int)),
            value <= u32::MAX,
        decreases s.len() - k,
    {
        let c = s[k];
        if !('0' <= c && c <= '9') {
            assert(!all_ascii_digits(s@));
            return None;
        }
        let digit = (c as u32) - ('0' as u32);
        assert(s@.take(k + 1).drop_last() =~= s@.take(k as int));
        value = value * 10 + digit as u64;
        k = k + 1;
        assert(all_ascii_digits(s@.take(k as int)));
        if value > u32::MAX as u64 {
            proof {
                if all_ascii_digits(s@) {
                    lemma_decimal_value_grows(s@, k as int);
                }
            }
            return None;
        }
    }
    assert(s@.take(s.len() as int) =~= s@);
    Some(value as u32)
}

/// The key `local_size_<axis>`, as characters.
fn size_key_chars(axis: char) -> (r: Vec<char>)
    ensures
        r@ == size_key(axis),
{
    let mut r: Vec<char> = Vec::new();
    r.push('l');
    r.push('o');
    r.push('c');
    r.push('a');
    r.push('l');
    r.push('_');
    r.push('s');
    r.push('i');
    r.push('z');
    r.push('e');
    r.push('_');
    r.push(axis);
    assert(r@ =~= size_key(axis));
    r
}

/// The work group size `(x, y, z)` that the compute shader source `source`
/// declares, as the module documentation describes.
pub fn work_group_size_in(source: &str) -> (r: (u32, u32, u32))
    ensures
        r == declared_work_group_size(source@),
{
    let s = crate::text::chars_of(source);
    let key_x = size_key_chars('x');
    let key_y = size_key_chars('y');
    let key_z = size_key_chars('z');
    let mut equals: Vec<char> = Vec::new();
    equals.push('=');
    assert(equals@ =~= seq!['=']);
    let mut newline: Vec<char> = Vec::new();
    newline.push('\n');
    assert(newline@ =~= seq!['\n']);

    let mut x: u32 = 1;
    let mut y: u32 = 1;
    let mut z: u32 = 1;
    let mut start: usize = 0;
    loop
        invariant
            start <= s.len(),
            s@ == source@,
            key_x@ == size_key('x'),
            key_y@ == size_key('y'),
            key_z@ == size_key('z'),
            equals@ == seq!['='],
            newline@ == seq!['\n'],
            size_from(s@, 0, size_key('x'), 1) == size_from(s@, start as int, size_key('x'), x),
            size_from(s@, 0, size_key('y'), 1) == size_from(s@, start as int, size_key('y'), y),
            size_from(s@, 0, size_key('z'), 1) == size_from(s@, start as int, size_key('z'), z),
        decreases s.len() - start,
    {
        let found = find_from(&s, &newline, start);
        proof {
            lemma_first_match_bounds(s@, newline@, start as int);
        }
        let end = match found {
            Some(i) => i,
            None => s.len(),
        };
        let line = copy_range(&s, start, end);
        x = apply(setting_of_line(&line, &key_x, &equals), x);
        y = apply(setting_of_line(&line, &key_y, &equals), y);
        z = apply(setting_of_line(&line, &key_z, &equals), z);
        match found {
            None => {
                return (x, y, z);
            },
            Some(i) => {
                start = i + 1;
            },
        }
    }
}

/// `current`, unless `setting` holds a new value.
fn apply(setting: Option<u32>, current: u32) -> (r: u32)
    ensures
        r == apply_setting(setting, current),
{
    match setting {
        Some(v) => v,
        None => current,
    }
}

} // verus!
