//! File names for received files, and the size text shown to the user.

use vstd::prelude::*;
use crate::text::{chars_of, dec, digit, digit_char, lemma_dec_injective, lemma_dec_value, push_char, push_chars, push_decimal, string_of};

verus! {

/// The size of one file chunk on the wire, in plaintext bytes.
pub const CHUNK_SIZE: usize = 60000;

/// The index of the last `c` in `s`, or -1.
pub open spec fn last_index(s: Seq<char>, c: char) -> int
    decreases s.len(),
{
    if s.len() == 0 {
        -1
    } else if s.last() == c {
        s.len() - 1
    } else {
        last_index(s.drop_last(), c)
    }
}

pub proof fn lemma_last_index(s: Seq<char>, c: char)
    ensures
        -1 <= last_index(s, c) < s.len(),
        last_index(s, c) >= 0 ==> s[last_index(s, c)] == c,
        forall|j: int| last_index(s, c) < j < s.len() ==> s[j] != c,
    decreases s.len(),
{
    if s.len() > 0 && s.last() != c {
        lemma_last_index(s.drop_last(), c);
        assert forall|j: int| last_index(s, c) < j < s.len() implies s[j] != c by {
            if j < s.len() - 1 {
                assert(s[j] == s.drop_last()[j]);
            }
        }
    }
}

/// The final component of a `/`-separated path: empty and `.` components
/// are skipped, and a path that ends in `..` or has no component has none.
pub open spec fn base_name(path: Seq<char>) -> Option<Seq<char>>
    decreases path.len(),
{
    let k = last_index(path, '/');
    let seg = path.subrange(k + 1, path.len() as int);
    if seg.len() == 0 || seg == seq!['.'] {
        if k < 0 {
            None
        } else {
            proof {
                lemma_last_index(path, '/');
            }
            base_name(path.subrange(0, k))
        }
    } else if seg == seq!['.', '.'] {
        None
    } else {
        Some(seg)
    }
}

fn find_last(cs: &Vec<char>, end: usize, c: char) -> (r: Option<usize>)
    requires
        end <= cs@.len(),
    ensures
        r is None <==> last_index(cs@.subrange(0, end as int), c) < 0,
        r is Some ==> r->Some_0 == last_index(cs@.subrange(0, end as int), c),
{
    let mut i: usize = end;
    while i > 0
        invariant
            i <= end <= cs@.len(),
            last_index(cs@.subrange(0, end as int), c) == last_index(cs@.subrange(0, i as int), c),
        decreases i,
    {
        if cs[i - 1] == c {
            return Some(i - 1);
        }
        assert(cs@.subrange(0, i as int).drop_last() =~= cs@.subrange(0, i - 1));
        i = i - 1;
    }
    None
}

/// The base name of `path`, as `base_name` defines it.
fn path_base_name(path: &str) -> (r: Option<Vec<char>>)
    ensures
        r is Some <==> base_name(path@) is Some,
        r is Some ==> r->Some_0@ == base_name(path@)->Some_0,
        r is Some ==> r->Some_0@.len() > 0,
{
    let cs = chars_of(path);
    let mut end: usize = cs.len();
    assert(cs@.subrange(0, end as int) =~= cs@);
    loop
        invariant
            end <= cs@.len(),
            cs@ == path@,
            base_name(path@) == base_name(cs@.subrange(0, end as int)),
        decreases end,
    {
        let ghost p = cs@.subrange(0, end as int);
        let k = find_last(&cs, end, '/');
        proof {
            lemma_last_index(p, '/');
        }
        let start: usize = match k {
            Some(k) => k + 1,
            None => 0,
        };
        let seg_len = end - start;
        let dot = seg_len == 1 && cs[start] == '.';
        let dotdot = seg_len == 2 && cs[start] == '.' && cs[start + 1] == '.';
        let ghost seg = p.subrange(last_index(p, '/') + 1, p.len() as int);
        assert(seg.len() == seg_len);
        proof {
            if seg_len >= 1 {
                assert(seg[0] == cs@[start as int]);
            }
            if seg_len >= 2 {
                assert(seg[1] == cs@[start + 1]);
            }
            if seg_len == 1 {
                assert(dot <==> seg =~= seq!['.']);
            }
            if seg_len == 2 {
                assert(dotdot <==> seg =~= seq!['.', '.']);
            }
        }
        if seg_len == 0 || dot {
            match k {
                None => {
                    return None;
                },
                Some(k) => {
                    assert(p.subrange(0, k as int) =~= cs@.subrange(0, k as int));
                    end = k;
                },
            }
        } else if dotdot {
            return None;
        } else {
            let mut out: Vec<char> = Vec::new();
            let mut i: usize = start;
            while i < end
                invariant
                    start <= i <= end <= cs@.len(),
                    out@ == cs@.subrange(start as int, i as int),
                decreases end - i,
            {
                out.push(cs[i]);
                i = i + 1;
                assert(out@ =~= cs@.subrange(start as int, i as int));
            }
            assert(out@ =~= seg);
            return Some(out);
        }
    }
}

/// The name a file is offered under: the final component of its path.
pub fn file_base_name(path: &str) -> (r: Option<String>)
    ensures
        r is Some <==> base_name(path@) is Some,
        r is Some ==> r->Some_0@ == base_name(path@)->Some_0,
{
    match path_base_name(path) {
        Some(cs) => Some(string_of(&cs)),
        None => None,
    }
}

/// The characters that may not appear in a received file's name.
pub open spec fn is_forbidden(c: char) -> bool {
    c == '/' || c == '\\' || c == ':' || c == '*' || c == '?' || c == '"' || c == '<' || c == '>'
        || c == '|'
}

/// `s` with every forbidden character replaced by `_`.
pub open spec fn replace_forbidden(s: Seq<char>) -> Seq<char> {
    Seq::new(s.len(), |i: int| if is_forbidden(s[i]) { '_' } else { s[i] })
}

pub open spec fn unnamed() -> Seq<char> {
    seq!['u', 'n', 'n', 'a', 'm', 'e', 'd']
}

/// The name under which an offered file is saved.
pub open spec fn sanitized(name: Seq<char>) -> Seq<char> {
    match base_name(name) {
        Some(n) => replace_forbidden(n),
        None => unnamed(),
    }
}

fn forbidden(c: char) -> (r: bool)
    ensures
        r == is_forbidden(c),
{
    c == '/' || c == '\\' || c == ':' || c == '*' || c == '?' || c == '"' || c == '<' || c == '>'
        || c == '|'
}

/// Keeps the final path component of `name`, replaces each of
/// `/ \ : * ? " < > |` with `_`, and falls back to `unnamed`.
pub fn sanitize_filename(name: &str) -> (r: String)
    ensures
        r@ == sanitized(name@),
        forall|i: int| 0 <= i < r@.len() ==> !is_forbidden(#[trigger] r@[i]),
        r@.len() > 0,
{
    match path_base_name(name) {
        None => {
            let v = vec!['u', 'n', 'n', 'a', 'm', 'e', 'd'];
            let r = string_of(&v);
            assert(r@ =~= unnamed());
            r
        },
        Some(cs) => {
            let mut out = String::new();
            let mut i: usize = 0;
            while i < cs.len()
                invariant
                    i <= cs@.len(),
                    out@ =~= replace_forbidden(cs@.subrange(0, i as int)),
                decreases cs@.len() - i,
            {
                let c = cs[i];
                if forbidden(c) {
                    push_char(&mut out, '_');
                } else {
                    push_char(&mut out, c);
                }
                i = i + 1;
                assert(out@ =~= replace_forbidden(cs@.subrange(0, i as int)));
            }
            assert(cs@.subrange(0, i as int) =~= cs@);
            out
        },
    }
}

/// The name has an extension: a dot after its first character, and it is
/// not `..`.
pub open spec fn has_extension(s: Seq<char>) -> bool {
    s != seq!['.', '.'] && last_index(s, '.') > 0
}

/// The part of the name before its extension.
pub open spec fn stem(s: Seq<char>) -> Seq<char> {
    if has_extension(s) {
        s.subrange(0, last_index(s, '.'))
    } else {
        s
    }
}

/// The extension with its leading dot, or nothing.
pub open spec fn dotted_extension(s: Seq<char>) -> Seq<char> {
    if has_extension(s) {
        s.subrange(last_index(s, '.'), s.len() as int)
    } else {
        Seq::empty()
    }
}

/// The `k`-th name tried for a file called `name`: the name itself, then
/// `stem (k).ext`.
pub open spec fn candidate(name: Seq<char>, k: nat) -> Seq<char> {
    if k == 0 {
        name
    } else {
        stem(name) + seq![' ', '('] + dec(k) + seq![')'] + dotted_extension(name)
    }
}

/// The names that `existing` holds.
pub open spec fn names(existing: Seq<String>) -> Seq<Seq<char>> {
    existing.map_values(|s: String| s@)
}

proof fn lemma_candidate_injective(name: Seq<char>, a: nat, b: nat)
    requires
        candidate(name, a) == candidate(name, b),
    ensures
        a == b,
{
    lemma_last_index(name, '.');
    assert(stem(name).len() + dotted_extension(name).len() == name.len());
    if a == 0 || b == 0 {
        lemma_dec_value(a);
        lemma_dec_value(b);
        return;
    }
    let p = stem(name) + seq![' ', '('];
    let q = seq![')'] + dotted_extension(name);
    let ca = candidate(name, a);
    assert(ca =~= p + dec(a) + q);
    assert(candidate(name, b) =~= p + dec(b) + q);
    assert(dec(a).len() == dec(b).len());
    assert(ca.subrange(p.len() as int, p.len() + dec(a).len() as int) =~= dec(a));
    assert(candidate(name, b).subrange(p.len() as int, p.len() + dec(b).len() as int) =~= dec(b));
    lemma_dec_injective(a, b);
}

fn contains_name(existing: &Vec<String>, name: &String) -> (r: bool)
    ensures
        r == names(existing@).contains(name@),
{
    let mut i: usize = 0;
    while i < existing.len()
        invariant
            i <= existing@.len(),
            forall|j: int| 0 <= j < i ==> existing@[j]@ != name@,
        decreases existing@.len() - i,
    {
        if existing[i] == *name {
            assert(names(existing@)[i as int] == name@);
            return true;
        }
        i = i + 1;
    }
    assert(!names(existing@).contains(name@)) by {
        if names(existing@).contains(name@) {
            let j = choose|j: int| 0 <= j < names(existing@).len() && names(existing@)[j] == name@;
            assert(existing@[j]@ == name@);
        }
    }
    false
}

/// Picks the first of `name`, `stem (1).ext`, `stem (2).ext`, ... that is
/// not among `existing`, the names already present in the target directory.
pub fn unique_name(name: &str, existing: &Vec<String>) -> (r: String)
    ensures
        !names(existing@).contains(r@),
        exists|k: nat|
            r@ == candidate(name@, k) && forall|j: nat|
                j < k ==> names(existing@).contains(#[trigger] candidate(name@, j)),
{
    let cs = chars_of(name);
    let first = string_of(&cs);
    if !contains_name(existing, &first) {
        assert(first@ == candidate(name@, 0));
        return first;
    }
    let dot = find_last(&cs, cs.len(), '.');
    assert(cs@.subrange(0, cs@.len() as int) =~= cs@);
    let is_dotdot = cs.len() == 2 && cs[0] == '.' && cs[1] == '.';
    proof {
        lemma_last_index(cs@, '.');
        if is_dotdot {
            assert(cs@ =~= seq!['.', '.']);
        }
    }
    let split: usize = match dot {
        Some(k) => if k > 0 && !is_dotdot {
            k
        } else {
            cs.len()
        },
        None => cs.len(),
    };
    assert(cs@.subrange(0, split as int) == stem(name@));
    assert(cs@.subrange(split as int, cs@.len() as int) =~= dotted_extension(name@));
    let ghost all = names(existing@);
    let ghost mut seen: Set<Seq<char>> = Set::empty().insert(first@);
    proof {
        assert(all.to_set().contains(first@));
        vstd::set_lib::lemma_len_subset(seen, all.to_set());
        all.lemma_cardinality_of_set();
        assert forall|s: Seq<char>|
            seen.contains(s) <==> exists|j: nat| j < 1 && candidate(name@, j) == s by {
            if seen.contains(s) {
                assert(candidate(name@, 0) == s);
            }
            if exists|j: nat| j < 1 && candidate(name@, j) == s {
                let j = choose|j: nat| j < 1 && candidate(name@, j) == s;
                assert(j == 0);
            }
        }
    }
    let count = existing.len();
    let mut i: usize = 1;
    loop
        invariant
            count == existing@.len(),
            1 <= i <= existing@.len(),
            cs@ == name@,
            all == names(existing@),
            split <= cs@.len(),
            cs@.subrange(0, split as int) == stem(name@),
            cs@.subrange(split as int, cs@.len() as int) =~= dotted_extension(name@),
            seen.finite(),
            seen.len() == i,
            seen.subset_of(all.to_set()),
            forall|s: Seq<char>|
                seen.contains(s) <==> exists|j: nat| j < i && candidate(name@, j) == s,
            forall|j: nat| j < i ==> all.contains(#[trigger] candidate(name@, j)),
        decreases existing@.len() - i,
    {
        let mut c = String::new();
        push_chars(&mut c, &cs, 0, split);
        push_char(&mut c, ' ');
        push_char(&mut c, '(');
        push_decimal(&mut c, i as u128);
        push_char(&mut c, ')');
        push_chars(&mut c, &cs, split, cs.len());
        assert(c@ =~= candidate(name@, i as nat));
        if !contains_name(existing, &c) {
            assert forall|j: nat| j < i as nat implies all.contains(
                #[trigger] candidate(name@, j),
            ) by {}
            return c;
        }
        proof {
            if seen.contains(c@) {
                let j = choose|j: nat| j < i && candidate(name@, j) == c@;
                lemma_candidate_injective(name@, j, i as nat);
            }
            assert(!seen.contains(c@));
            let ghost before = seen;
            seen = seen.insert(c@);
            assert(seen.len() == before.len() + 1);
            assert(all.to_set().contains(c@));
            vstd::set_lib::lemma_len_subset(seen, all.to_set());
            all.lemma_cardinality_of_set();
            assert(all.len() == existing@.len());
            assert(i + 1 <= existing@.len());
            assert forall|s: Seq<char>|
                seen.contains(s) <==> exists|j: nat| j < i + 1 && candidate(name@, j) == s by {
                if before.contains(s) {
                    let j = choose|j: nat| j < i && candidate(name@, j) == s;
                    assert(j < i + 1);
                }
                if s == c@ {
                    assert(candidate(name@, i as nat) == s);
                }
                if exists|j: nat| j < i + 1 && candidate(name@, j) == s {
                    let j = choose|j: nat| j < i + 1 && candidate(name@, j) == s;
                    if j < i {
                        assert(exists|j: nat| j < i && candidate(name@, j) == s);
                    }
                }
            }
        }
        i = i + 1;
    }
}

/// `num / den` rounded to the nearest integer, ties to even.
pub open spec fn round_half_even(num: nat, den: nat) -> nat
    recommends
        den > 0,
{
    let q = num / den;
    let r = num % den;
    if 2 * r > den || (2 * r == den && q % 2 == 1) {
        q + 1
    } else {
        q
    }
}

/// `v / 10` written with one decimal.
pub open spec fn tenths(v: nat) -> Seq<char> {
    dec(v / 10) + seq!['.', digit_char(v % 10)]
}

/// `v / 100` written with two decimals.
pub open spec fn hundredths(v: nat) -> Seq<char> {
    dec(v / 100) + seq!['.', digit_char((v / 10) % 10), digit_char(v % 10)]
}

pub const KIB: u64 = 1024;
pub const MIB: u64 = 1048576;
pub const GIB: u64 = 1073741824;

/// The size text: whole bytes below 1 KB, then KB and MB with one decimal
/// and GB with two, 1024-based and rounded to nearest, ties to even.
pub open spec fn size_text(b: u64) -> Seq<char> {
    if b < KIB {
        dec(b as nat) + seq![' ', 'B']
    } else if b < MIB {
        tenths(round_half_even((b * 10) as nat, KIB as nat)) + seq![' ', 'K', 'B']
    } else if b < GIB {
        tenths(round_half_even((b * 10) as nat, MIB as nat)) + seq![' ', 'M', 'B']
    } else {
        hundredths(round_half_even((b * 100) as nat, GIB as nat)) + seq![' ', 'G', 'B']
    }
}

fn round_div(num: u128, den: u128) -> (r: u128)
    requires
        0 < den <= u64::MAX as u128,
        num <= u64::MAX as u128 * 100,
    ensures
        r == round_half_even(num as nat, den as nat),
{
    let q = num / den;
    let rem = num % den;
    assert(rem < den);
    assert(q <= num) by (nonlinear_arith)
        requires
            q == num / den,
            den > 0,
    ;
    if 2 * rem > den || (2 * rem == den && q % 2 == 1) {
        q + 1
    } else {
        q
    }
}

fn push_tenths(s: &mut String, v: u128)
    ensures
        final(s)@ == old(s)@ + tenths(v as nat),
{
    push_decimal(s, v / 10);
    push_char(s, '.');
    push_char(s, digit(v % 10));
    assert(final(s)@ =~= old(s)@ + tenths(v as nat));
}

fn push_hundredths(s: &mut String, v: u128)
    ensures
        final(s)@ == old(s)@ + hundredths(v as nat),
{
    push_decimal(s, v / 100);
    push_char(s, '.');
    push_char(s, digit((v / 10) % 10));
    push_char(s, digit(v % 10));
    assert(final(s)@ =~= old(s)@ + hundredths(v as nat));
}

/// The size of a file as shown to the user, e.g. `512 B`, `97.7 KB`.
pub fn format_size(bytes: u64) -> (r: String)
    ensures
        r@ == size_text(bytes),
{
    let mut s = String::new();
    let b = bytes as u128;
    if bytes < KIB {
        push_decimal(&mut s, b);
        push_char(&mut s, ' ');
    } else if bytes < MIB {
        push_tenths(&mut s, round_div(b * 10, KIB as u128));
        push_char(&mut s, ' ');
        push_char(&mut s, 'K');
    } else if bytes < GIB {
        push_tenths(&mut s, round_div(b * 10, MIB as u128));
        push_char(&mut s, ' ');
        push_char(&mut s, 'M');
    } else {
        push_hundredths(&mut s, round_div(b * 100, GIB as u128));
        push_char(&mut s, ' ');
        push_char(&mut s, 'G');
    }
    push_char(&mut s, 'B');
    assert(s@ =~= size_text(bytes));
    s
}

} // verus!
