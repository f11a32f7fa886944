//! Pure string logic behind the rename and revert transforms: decimal
//! rendering, zero padding, substring search, and the file-name forms they
//! combine into.

use vstd::prelude::*;

verus! {

/// The decimal digit character for `d` (meaningful for `0 <= d <= 9`).
pub open spec fn digit_char(d: nat) -> char {
    if d == 0 {
        '0'
    } else if d == 1 {
        '1'
    } else if d == 2 {
        '2'
    } else if d == 3 {
        '3'
    } else if d == 4 {
        '4'
    } else if d == 5 {
        '5'
    } else if d == 6 {
        '6'
    } else if d == 7 {
        '7'
    } else if d == 8 {
        '8'
    } else {
        '9'
    }
}

/// The decimal rendering of `n` as a sequence of digit characters, most
/// significant digit first, with no leading zeros (except for `n == 0`).
pub open spec fn spec_digits(n: nat) -> Seq<char>
    decreases n,
{
    if n < 10 {
        seq![digit_char(n)]
    } else {
        spec_digits(n / 10).push(digit_char(n % 10))
    }
}

/// The number of decimal digits of `n`.
pub open spec fn digit_count(n: nat) -> nat
    decreases n,
{
    if n < 10 {
        1
    } else {
        1 + digit_count(n / 10)
    }
}

/// The rendering of `n` has exactly `digit_count(n)` characters.
pub proof fn lemma_digits_len(n: nat)
    ensures
        spec_digits(n).len() == digit_count(n),
    decreases n,
{
    if n >= 10 {
        lemma_digits_len(n / 10);
    }
}

/// Whether `c` is a decimal digit character.
pub open spec fn is_digit_char(c: char) -> bool {
    ||| c == '0'
    ||| c == '1'
    ||| c == '2'
    ||| c == '3'
    ||| c == '4'
    ||| c == '5'
    ||| c == '6'
    ||| c == '7'
    ||| c == '8'
    ||| c == '9'
}

/// Every character of the rendering of `n` is a decimal digit.
pub proof fn lemma_digits_are_digits(n: nat)
    ensures
        forall|i: int| 0 <= i < spec_digits(n).len() ==> is_digit_char(#[trigger] spec_digits(n)[i]),
    decreases n,
{
    if n < 10 {
        assert(spec_digits(n)[0] == digit_char(n));
    } else {
        lemma_digits_are_digits(n / 10);
        let prev = spec_digits(n / 10);
        assert forall|i: int| 0 <= i < spec_digits(n).len() implies is_digit_char(
            #[trigger] spec_digits(n)[i],
        ) by {
            if i < prev.len() {
                assert(spec_digits(n)[i] == prev[i]);
            } else {
                assert(spec_digits(n)[i] == digit_char(n % 10));
            }
        }
    }
}

/// A run of `count` zero characters.
pub open spec fn spec_zeros(count: nat) -> Seq<char> {
    Seq::new(count, |i: int| '0')
}

/// The zero-padded prefix: `num` rendered to at least `len` digits; when the
/// natural rendering is already wider than `len` it is used unpadded, never
/// truncated.
pub open spec fn spec_prefix(num: nat, len: nat) -> Seq<char> {
    if len < spec_digits(num).len() {
        spec_digits(num)
    } else {
        spec_zeros((len - spec_digits(num).len()) as nat) + spec_digits(num)
    }
}

/// Every character of a padded prefix is a decimal digit.
pub proof fn lemma_prefix_is_digits(num: nat, len: nat)
    ensures
        forall|i: int|
            0 <= i < spec_prefix(num, len).len() ==> is_digit_char(
                #[trigger] spec_prefix(num, len)[i],
            ),
{
    lemma_digits_are_digits(num);
}

fn digit_literal(d: usize) -> (s: &'static str)
    requires
        d < 10,
    ensures
        s@ == seq![digit_char(d as nat)],
{
    proof {
        reveal_strlit("0");
        reveal_strlit("1");
        reveal_strlit("2");
        reveal_strlit("3");
        reveal_strlit("4");
        reveal_strlit("5");
        reveal_strlit("6");
        reveal_strlit("7");
        reveal_strlit("8");
        reveal_strlit("9");
    }
    if d == 0 {
        "0"
    } else if d == 1 {
        "1"
    } else if d == 2 {
        "2"
    } else if d == 3 {
        "3"
    } else if d == 4 {
        "4"
    } else if d == 5 {
        "5"
    } else if d == 6 {
        "6"
    } else if d == 7 {
        "7"
    } else if d == 8 {
        "8"
    } else {
        "9"
    }
}

/// Renders `n` in decimal.
pub fn num_to_string(n: usize) -> (s: String)
    ensures
        s@ == spec_digits(n as nat),
    decreases n,
{
    if n < 10 {
        let s = digit_literal(n);
        s.to_owned()
    } else {
        let rest = num_to_string(n / 10);
        let d = digit_literal(n % 10);
        let s = rest.concat(d);
        proof {
            assert(s@ =~= spec_digits(n as nat));
        }
        s
    }
}

/// Builds the sequence-number prefix: `num` in decimal, left-padded with
/// zeros to `len` digits, or the natural rendering when it is wider.
pub fn create_prefix(num: usize, len: usize) -> (s: String)
    ensures
        s@ == spec_prefix(num as nat, len as nat),
{
    let digits = num_to_string(num);
    let dlen = digits.as_str().unicode_len();
    if len < dlen {
        digits
    } else {
        let pad = len - dlen;
        let mut zeros = String::new();
        let mut i: usize = 0;
        while i < pad
            invariant
                i <= pad,
                zeros@ == spec_zeros(i as nat),
            decreases pad - i,
        {
            zeros.append("0");
            proof {
                reveal_strlit("0");
                assert(zeros@ =~= spec_zeros((i + 1) as nat));
            }
            i += 1;
        }
        let s = zeros.concat(digits.as_str());
        s
    }
}

/// The shared prefix width for a batch of `files_len` files: the decimal
/// digit count of the file count itself.
pub fn get_prefix_len(files_len: usize) -> (r: usize)
    ensures
        r as nat == digit_count(files_len as nat),
{
    proof {
        lemma_digits_len(files_len as nat);
    }
    let s = num_to_string(files_len);
    s.as_str().unicode_len()
}

/// Whether `delim` occurs in `name` starting at position `i`.
pub open spec fn match_at(name: Seq<char>, delim: Seq<char>, i: int) -> bool {
    &&& 0 <= i
    &&& i + delim.len() <= name.len()
    &&& name.subrange(i, i + delim.len() as int) == delim
}

/// The first position at or after `i` where `delim` occurs in `name`, if
/// any. Meaningful for non-empty delimiters; an empty one never counts as
/// found.
pub open spec fn spec_find_from(name: Seq<char>, delim: Seq<char>, i: int) -> Option<int>
    decreases name.len() - i,
{
    if i < 0 || delim.len() == 0 || i + delim.len() > name.len() {
        None
    } else if match_at(name, delim, i) {
        Some(i)
    } else {
        spec_find_from(name, delim, i + 1)
    }
}

/// The first position where `delim` occurs in `name`, if any.
pub open spec fn spec_find(name: Seq<char>, delim: Seq<char>) -> Option<int> {
    spec_find_from(name, delim, 0)
}

/// `spec_find_from` returns exactly the first match position at or after `i`.
pub proof fn lemma_find_from_first(name: Seq<char>, delim: Seq<char>, i: int, p: int)
    requires
        delim.len() > 0,
        0 <= i <= p,
        match_at(name, delim, p),
        forall|j: int| i <= j < p ==> !match_at(name, delim, j),
    ensures
        spec_find_from(name, delim, i) == Some(p),
    decreases p - i,
{
    if i < p {
        lemma_find_from_first(name, delim, i + 1, p);
    }
}

fn eq_at(name: &str, delim: &str, i: usize) -> (r: bool)
    requires
        i + delim@.len() <= name@.len(),
    ensures
        r == match_at(name@, delim@, i as int),
{
    let nlen = name.unicode_len();
    let dlen = delim.unicode_len();
    let mut j: usize = 0;
    while j < dlen
        invariant
            j <= dlen,
            dlen == delim@.len(),
            nlen == name@.len(),
            i + dlen <= nlen,
            forall|k: int| 0 <= k < j ==> name@[i + k] == delim@[k],
        decreases dlen - j,
    {
        let c1 = name.get_char(i + j);
        let c2 = delim.get_char(j);
        if c1 != c2 {
            assert(!match_at(name@, delim@, i as int)) by {
                assert(name@.subrange(i as int, i + delim@.len() as int)[j as int] == name@[i + j]);
            }
            return false;
        }
        j += 1;
    }
    proof {
        assert(name@.subrange(i as int, i + delim@.len() as int) =~= delim@);
    }
    true
}

/// Finds the first occurrence of `delim` inside `name`, as a character
/// position.
pub fn find_sub(name: &str, delim: &str) -> (r: Option<usize>)
    ensures
        match r {
            Some(p) => spec_find(name@, delim@) == Some(p as int),
            None => spec_find(name@, delim@) is None,
        },
{
    let nlen = name.unicode_len();
    let dlen = delim.unicode_len();
    if dlen == 0 || dlen > nlen {
        return None;
    }
    let mut i: usize = 0;
    while i <= nlen - dlen
        invariant
            1 <= dlen <= nlen,
            nlen == name@.len(),
            dlen == delim@.len(),
            i <= nlen - dlen + 1,
            spec_find(name@, delim@) == spec_find_from(name@, delim@, i as int),
        decreases nlen - dlen - i + 1,
    {
        if eq_at(name, delim, i) {
            return Some(i);
        }
        i += 1;
    }
    None
}

/// The prefixed name that a rename produces: the padded sequence number,
/// the delimiter, then the original name.
pub open spec fn spec_prefixed_name(
    name: Seq<char>,
    index: nat,
    prefix_len: nat,
    delim: Seq<char>,
) -> Seq<char> {
    spec_prefix(index + 1, prefix_len) + delim + name
}

/// The reverted name: everything after the first occurrence of the delimiter,
/// shifted by a fixed offset of two characters. The offset is deliberately
/// fixed, not the delimiter's actual length: reverting assumes the default
/// two-character delimiter, whatever delimiter anchors the search.
pub open spec fn spec_reverted_name(name: Seq<char>, delim: Seq<char>) -> Option<Seq<char>> {
    match spec_find(name, delim) {
        Some(p) => Some(name.skip(p + 2)),
        None => None,
    }
}

/// Reverting undoes renaming: for any original name, index and width, and any
/// two-character delimiter that does not begin with a decimal digit, the
/// reverted form of the prefixed name is exactly the original name.
///
/// The digit restriction is needed because the revert anchors on the first
/// occurrence of the delimiter: a delimiter such as a double zero can occur
/// inside the numeric prefix itself.
pub proof fn lemma_rename_revert(name: Seq<char>, index: nat, prefix_len: nat, delim: Seq<char>)
    requires
        delim.len() == 2,
        !is_digit_char(delim[0]),
    ensures
        spec_reverted_name(spec_prefixed_name(name, index, prefix_len, delim), delim) == Some(
            name,
        ),
{
    let full = spec_prefixed_name(name, index, prefix_len, delim);
    let plen = spec_prefix(index + 1, prefix_len).len() as int;
    lemma_prefix_is_digits(index + 1, prefix_len);
    assert forall|j: int| 0 <= j < plen implies !match_at(full, delim, j) by {
        if match_at(full, delim, j) {
            assert(full.subrange(j, j + 2)[0] == full[j]);
            assert(full[j] == spec_prefix(index + 1, prefix_len)[j]);
        }
    }
    assert(match_at(full, delim, plen)) by {
        assert(full.subrange(plen, plen + 2) =~= delim);
    }
    lemma_find_from_first(full, delim, 0, plen);
    assert(full.skip(plen + 2) =~= name);
}

/// Two dry runs agree: the prefixed name is a function of the original name,
/// the index, the width and the delimiter alone, so computing it twice with
/// identical arguments yields identical output.
pub proof fn lemma_prefixed_name_deterministic(
    r1: Seq<char>,
    r2: Seq<char>,
    name: Seq<char>,
    index: nat,
    prefix_len: nat,
    delim: Seq<char>,
)
    requires
        r1 == spec_prefixed_name(name, index, prefix_len, delim),
        r2 == spec_prefixed_name(name, index, prefix_len, delim),
    ensures
        r1 == r2,
{
}

} // verus!
