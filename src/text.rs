//! Character-sequence helpers shared by the parsers and formatters.
use vstd::prelude::*;
use vstd::std_specs::iter::IteratorSpec;

verus! {

broadcast use vstd::string::group_string_axioms;

/// Relies on `String::push`: the character is appended at the end.
#[verifier::external_body]
pub(crate) fn push_char(s: &mut String, c: char)
    ensures
        final(s)@ == old(s)@.push(c),
{
    s.push(c)
}

/// The characters of `s`, in order.
pub fn chars_of(s: &str) -> (r: Vec<char>)
    ensures
        r@ == s@,
{
    let mut it = s.chars();
    let mut r: Vec<char> = Vec::new();
    loop
        invariant
            r@ + it.remaining() == s@,
            it.obeys_prophetic_iter_laws(),
            it.decrease() is Some,
        ensures
            r@ == s@,
        decreases it.decrease()->0,
    {
        match it.next() {
            Some(c) => {
                r.push(c);
            },
            None => {
                assert(r@ + it.remaining() =~= r@);
                break ;
            },
        }
    }
    r
}

/// A string holding exactly the characters of `cs`.
pub fn string_of(cs: &Vec<char>) -> (r: String)
    ensures
        r@ == cs@,
{
    let mut r = String::new();
    let mut i: usize = 0;
    while i < cs.len()
        invariant
            i <= cs.len(),
            r@ == cs@.take(i as int),
        decreases cs.len() - i,
    {
        push_char(&mut r, cs[i]);
        assert(cs@.take(i + 1) =~= cs@.take(i as int).push(cs@[i as int]));
        i += 1;
    }
    assert(cs@.take(cs.len() as int) =~= cs@);
    r
}

/// Appends the characters of `cs` to `s`.
pub fn push_chars(s: &mut String, cs: &Vec<char>)
    ensures
        final(s)@ == old(s)@ + cs@,
{
    let mut i: usize = 0;
    while i < cs.len()
        invariant
            i <= cs.len(),
            s@ == old(s)@ + cs@.take(i as int),
        decreases cs.len() - i,
    {
        push_char(s, cs[i]);
        assert(cs@.take(i + 1) =~= cs@.take(i as int).push(cs@[i as int]));
        i += 1;
    }
    assert(cs@.take(cs.len() as int) =~= cs@);
}

/// Appends the characters of `t` to `s`.
pub fn push_str(s: &mut String, t: &str)
    ensures
        final(s)@ == old(s)@ + t@,
{
    let cs = chars_of(t);
    push_chars(s, &cs);
}

/// `needle` occurs in `hay` starting at index `i`.
pub open spec fn matches_at(hay: Seq<char>, needle: Seq<char>, i: int) -> bool {
    0 <= i && i + needle.len() <= hay.len() && hay.subrange(i, i + needle.len()) == needle
}

/// `needle` occurs somewhere in `hay`.
pub open spec fn contains_seq(hay: Seq<char>, needle: Seq<char>) -> bool {
    exists|i: int| matches_at(hay, needle, i)
}

pub open spec fn starts_with(hay: Seq<char>, prefix: Seq<char>) -> bool {
    matches_at(hay, prefix, 0)
}

pub open spec fn ends_with(hay: Seq<char>, suffix: Seq<char>) -> bool {
    suffix.len() <= hay.len() && matches_at(hay, suffix, hay.len() - suffix.len())
}

pub fn matches_at_exec(hay: &Vec<char>, needle: &Vec<char>, i: usize) -> (r: bool)
    ensures
        r == matches_at(hay@, needle@, i as int),
{
    if i > hay.len() || needle.len() > hay.len() - i {
        return false;
    }
    let mut k: usize = 0;
    while k < needle.len()
        invariant
            i + needle.len() <= hay.len(),
            k <= needle.len(),
            forall|t: int| 0 <= t < k ==> hay@[i + t] == needle@[t],
        decreases needle.len() - k,
    {
        if hay[i + k] != needle[k] {
            assert(hay@.subrange(i as int, i + needle.len())[k as int] != needle@[k as int]);
            return false;
        }
        k += 1;
    }
    assert(hay@.subrange(i as int, i + needle.len()) =~= needle@);
    true
}

/// `i` is the first occurrence of `needle` in `hay` at or after `from`.
pub open spec fn is_first_match(hay: Seq<char>, needle: Seq<char>, from: int, i: int) -> bool {
    &&& from <= i
    &&& matches_at(hay, needle, i)
    &&& forall|j: int| from <= j < i ==> !matches_at(hay, needle, j)
}

/// The first occurrence of `needle` in `hay` at or after `from`.
pub open spec fn find_spec(hay: Seq<char>, needle: Seq<char>, from: int) -> Option<int> {
    if exists|i: int| is_first_match(hay, needle, from, i) {
        Some(choose|i: int| is_first_match(hay, needle, from, i))
    } else {
        None
    }
}

/// `i` is the last occurrence of `needle` in `hay` that ends at or before `end`.
pub open spec fn is_last_match(hay: Seq<char>, needle: Seq<char>, end: int, i: int) -> bool {
    &&& i + needle.len() <= end
    &&& matches_at(hay, needle, i)
    &&& forall|j: int| i < j && j + needle.len() <= end ==> !matches_at(hay, needle, j)
}

/// The last occurrence of `needle` in `hay` that ends at or before `end`.
pub open spec fn rfind_spec(hay: Seq<char>, needle: Seq<char>, end: int) -> Option<int> {
    if exists|i: int| is_last_match(hay, needle, end, i) {
        Some(choose|i: int| is_last_match(hay, needle, end, i))
    } else {
        None
    }
}

pub open spec fn as_int(o: Option<usize>) -> Option<int> {
    match o {
        Some(i) => Some(i as int),
        None => None,
    }
}

/// The first occurrence of `needle` in `hay` at or after `from`.
pub fn find(hay: &Vec<char>, needle: &Vec<char>, from: usize) -> (r: Option<usize>)
    ensures
        as_int(r) == find_spec(hay@, needle@, from as int),
{
    let r = find_from(hay, needle, from);
    proof {
        match r {
            Some(i) => {
                assert(is_first_match(hay@, needle@, from as int, i as int));
                let c = choose|c: int| is_first_match(hay@, needle@, from as int, c);
                assert(c == i);
            },
            None => {},
        }
    }
    r
}

/// The last occurrence of `needle` in `hay` that ends at or before `end`.
pub fn rfind(hay: &Vec<char>, needle: &Vec<char>, end: usize) -> (r: Option<usize>)
    requires
        end <= hay@.len(),
    ensures
        as_int(r) == rfind_spec(hay@, needle@, end as int),
{
    let r = rfind_before(hay, needle, end);
    proof {
        match r {
            Some(i) => {
                assert(is_last_match(hay@, needle@, end as int, i as int));
                let c = choose|c: int| is_last_match(hay@, needle@, end as int, c);
                assert(c == i);
            },
            None => {},
        }
    }
    r
}

/// The first occurrence of `needle` in `hay` at or after `from`.
pub fn find_from(hay: &Vec<char>, needle: &Vec<char>, from: usize) -> (r: Option<usize>)
    ensures
        r matches Some(i) ==> from <= i && matches_at(hay@, needle@, i as int) && forall|j: int|
            from <= j < i ==> !matches_at(hay@, needle@, j),
        r is None ==> forall|j: int| from <= j ==> !matches_at(hay@, needle@, j),
{
    let mut i = from;
    while i < hay.len()
        invariant
            from <= i,
            forall|j: int| from <= j < i ==> !matches_at(hay@, needle@, j),
        decreases hay.len() - i,
    {
        if matches_at_exec(hay, needle, i) {
            return Some(i);
        }
        i += 1;
    }
    if matches_at_exec(hay, needle, i) {
        return Some(i);
    }
    None
}

/// The last occurrence of `needle` that ends at or before `end`.
pub fn rfind_before(hay: &Vec<char>, needle: &Vec<char>, end: usize) -> (r: Option<usize>)
    requires
        end <= hay.len(),
    ensures
        r matches Some(i) ==> i + needle.len() <= end && matches_at(hay@, needle@, i as int)
            && forall|j: int| i < j && j + needle.len() <= end ==> !matches_at(hay@, needle@, j),
        r is None ==> forall|j: int| j + needle.len() <= end ==> !matches_at(hay@, needle@, j),
{
    if needle.len() > end {
        return None;
    }
    let mut i: usize = end - needle.len();
    loop
        invariant
            i + needle.len() <= end,
            end <= hay.len(),
            forall|j: int| i < j && j + needle.len() <= end ==> !matches_at(hay@, needle@, j),
        decreases i,
    {
        if matches_at_exec(hay, needle, i) {
            return Some(i);
        }
        if i == 0 {
            return None;
        }
        i -= 1;
    }
}

/// The characters of `cs` from index `from` up to (not including) `to`.
pub fn sub_chars(cs: &Vec<char>, from: usize, to: usize) -> (r: Vec<char>)
    requires
        from <= to <= cs@.len(),
    ensures
        r@ == cs@.subrange(from as int, to as int),
{
    let mut r: Vec<char> = Vec::new();
    let mut i: usize = from;
    while i < to
        invariant
            from <= i <= to,
            to <= cs@.len(),
            r@ == cs@.subrange(from as int, i as int),
        decreases to - i,
    {
        r.push(cs[i]);
        assert(cs@.subrange(from as int, i + 1) =~= cs@.subrange(from as int, i as int).push(
            cs@[i as int],
        ));
        i += 1;
    }
    r
}

/// Whether `c` occurs in `cs`.
pub fn contains_char(cs: &Vec<char>, c: char) -> (r: bool)
    ensures
        r == cs@.contains(c),
{
    let mut i: usize = 0;
    while i < cs.len()
        invariant
            i <= cs.len(),
            forall|j: int| 0 <= j < i ==> cs@[j] != c,
        decreases cs.len() - i,
    {
        if cs[i] == c {
            return true;
        }
        i += 1;
    }
    false
}

pub open spec fn digit_char(d: nat) -> char {
    if d == 0 {
        '0'
    } else if d == 1 {
        '1'
    } else if d == 2 {
        '2'
    } else if d == 3 {
        '3'
    } else if d == 4 {
        '4'
    } else if d == 5 {
        '5'
    } else if d == 6 {
        '6'
    } else if d == 7 {
        '7'
    } else if d == 8 {
        '8'
    } else {
        '9'
    }
}

/// Lower-case hexadecimal digit of a value below 16.
pub open spec fn hex_digit(d: nat) -> char {
    if d < 10 {
        digit_char(d)
    } else if d == 10 {
        'a'
    } else if d == 11 {
        'b'
    } else if d == 12 {
        'c'
    } else if d == 13 {
        'd'
    } else if d == 14 {
        'e'
    } else {
        'f'
    }
}

/// Decimal notation of `n`, without sign or leading zeros.
pub open spec fn decimal(n: nat) -> Seq<char>
    decreases n,
{
    if n < 10 {
        seq![digit_char(n)]
    } else {
        decimal(n / 10).push(digit_char(n % 10))
    }
}

/// Two lower-case hexadecimal digits per byte, most significant first.
pub open spec fn hex_of(bytes: Seq<u8>) -> Seq<char>
    decreases bytes.len(),
{
    if bytes.len() == 0 {
        Seq::empty()
    } else {
        hex_of(bytes.drop_last()) + seq![
            hex_digit(bytes.last() as nat / 16),
            hex_digit(bytes.last() as nat % 16),
        ]
    }
}

pub fn hex_digit_exec(d: u8) -> (c: char)
    requires
        d < 16,
    ensures
        c == hex_digit(d as nat),
{
    if d == 0 {
        '0'
    } else if d == 1 {
        '1'
    } else if d == 2 {
        '2'
    } else if d == 3 {
        '3'
    } else if d == 4 {
        '4'
    } else if d == 5 {
        '5'
    } else if d == 6 {
        '6'
    } else if d == 7 {
        '7'
    } else if d == 8 {
        '8'
    } else if d == 9 {
        '9'
    } else if d == 10 {
        'a'
    } else if d == 11 {
        'b'
    } else if d == 12 {
        'c'
    } else if d == 13 {
        'd'
    } else if d == 14 {
        'e'
    } else {
        'f'
    }
}

/// Decimal digits of `n`.
pub fn decimal_chars(n: u64) -> (r: Vec<char>)
    ensures
        r@ == decimal(n as nat),
    decreases n,
{
    if n < 10 {
        let c = hex_digit_exec(n as u8);
        vec![c]
    } else {
        let mut v = decimal_chars(n / 10);
        let c = hex_digit_exec((n % 10) as u8);
        v.push(c);
        v
    }
}

/// Lower-case hexadecimal notation of `bytes`.
pub fn hex_chars(bytes: &Vec<u8>) -> (r: Vec<char>)
    ensures
        r@ == hex_of(bytes@),
        r@.len() == 2 * bytes@.len(),
{
    let mut r: Vec<char> = Vec::new();
    let mut i: usize = 0;
    while i < bytes.len()
        invariant
            i <= bytes.len(),
            r@ == hex_of(bytes@.take(i as int)),
            r@.len() == 2 * i,
        decreases bytes.len() - i,
    {
        let b = bytes[i];
        let hi = hex_digit_exec(b / 16);
        let lo = hex_digit_exec(b % 16);
        assert(bytes@.take(i + 1).drop_last() =~= bytes@.take(i as int));
        r.push(hi);
        r.push(lo);
        assert(r@ =~= hex_of(bytes@.take(i + 1)));
        i += 1;
    }
    assert(bytes@.take(bytes.len() as int) =~= bytes@);
    r
}

} // verus!
