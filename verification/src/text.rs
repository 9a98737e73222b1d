//! Character-level text processing over `Seq<char>`: what `str::trim`,
//! `str::lines`, `str::split_whitespace` and integer parsing and printing
//! compute, with executable versions proved against those statements.

use vstd::prelude::*;

verus! {

broadcast use vstd::string::group_string_axioms;

/// The characters of `s`, in order.
pub fn chars_of(s: &str) -> (r: Vec<char>)
    ensures
        r@ == s@,
{
    let mut r: Vec<char> = Vec::new();
    for c in it: s.chars()
        invariant
            r@ == it.seq().take(it.index() as int),
    {
        r.push(c);
    }
    r
}

/// A `String` holding exactly the characters of `chars`.
#[verifier::external_body]
pub fn string_from_chars(chars: &[char]) -> (r: String)
    ensures
        r@ == chars@,
{
    chars.iter().collect()
}

/// Whether two character slices are equal.
pub fn chars_eq(a: &[char], b: &[char]) -> (r: bool)
    ensures
        r == (a@ == b@),
{
    if a.len() != b.len() {
        return false;
    }
    let mut i: usize = 0;
    while i < a.len()
        invariant
            a.len() == b.len(),
            i <= a.len(),
            forall|k: int| 0 <= k < i ==> a@[k] == b@[k],
        decreases a.len() - i,
    {
        if a[i] != b[i] {
            return false;
        }
        i = i + 1;
    }
    assert(a@ =~= b@);
    true
}

/// Whether the characters of `a` spell the string `b`.
pub fn chars_eq_str(a: &[char], b: &str) -> (r: bool)
    ensures
        r == (a@ == b@),
{
    let bc = chars_of(b);
    chars_eq(a, bc.as_slice())
}

/// Whether two strings hold the same characters.
pub fn str_eq(a: &str, b: &str) -> (r: bool)
    ensures
        r == (a@ == b@),
{
    let ac = chars_of(a);
    chars_eq_str(ac.as_slice(), b)
}

/// `Some` of what follows `p` in `s` when `s` starts with `p`.
pub open spec fn strip_prefix_spec(s: Seq<char>, p: Seq<char>) -> Option<Seq<char>> {
    if p.len() <= s.len() && s.take(p.len() as int) == p {
        Some(s.skip(p.len() as int))
    } else {
        None
    }
}

/// The part of `s` after the prefix `p`, as `str::strip_prefix` gives it.
pub fn strip_prefix(s: &[char], p: &str) -> (r: Option<Vec<char>>)
    ensures
        match r {
            Some(rest) => strip_prefix_spec(s@, p@) == Some(rest@),
            None => strip_prefix_spec(s@, p@) is None,
        },
{
    let pc = chars_of(p);
    if pc.len() > s.len() {
        return None;
    }
    let mut i: usize = 0;
    while i < pc.len()
        invariant
            pc@ == p@,
            pc.len() <= s.len(),
            i <= pc.len(),
            forall|k: int| 0 <= k < i ==> s@[k] == pc@[k],
        decreases pc.len() - i,
    {
        if s[i] != pc[i] {
            assert(s@.take(pc.len() as int)[i as int] != pc@[i as int]);
            return None;
        }
        i = i + 1;
    }
    assert(s@.take(pc.len() as int) =~= pc@);
    Some(copy_range(s, pc.len(), s.len()))
}

/// The characters of `s` from index `from` up to, not including, `to`.
pub fn copy_range(s: &[char], from: usize, to: usize) -> (r: Vec<char>)
    requires
        from <= to <= s.len(),
    ensures
        r@ == s@.subrange(from as int, to as int),
{
    let mut r: Vec<char> = Vec::new();
    let mut i: usize = from;
    while i < to
        invariant
            from <= i <= to <= s.len(),
            r@ == s@.subrange(from as int, i as int),
        decreases to - i,
    {
        r.push(s[i]);
        i = i + 1;
        assert(r@ =~= s@.subrange(from as int, i as int));
    }
    r
}

/// Unicode `White_Space`, the property that `char::is_whitespace` tests.
pub open spec fn is_ws(c: char) -> bool {
    let u = c as u32;
    ||| 0x9 <= u <= 0xd
    ||| u == 0x20
    ||| u == 0x85
    ||| u == 0xa0
    ||| u == 0x1680
    ||| 0x2000 <= u <= 0x200a
    ||| u == 0x2028
    ||| u == 0x2029
    ||| u == 0x202f
    ||| u == 0x205f
    ||| u == 0x3000
}

/// Whether `c` is white space in the sense of `char::is_whitespace`.
pub fn is_whitespace(c: char) -> (r: bool)
    ensures
        r == is_ws(c),
{
    let u = c as u32;
    (0x9 <= u && u <= 0xd) || u == 0x20 || u == 0x85 || u == 0xa0 || u == 0x1680 || (0x2000 <= u
        && u <= 0x200a) || u == 0x2028 || u == 0x2029 || u == 0x202f || u == 0x205f || u == 0x3000
}

/// `s` without its leading white space.
pub open spec fn trim_start(s: Seq<char>) -> Seq<char>
    decreases s.len(),
{
    if s.len() > 0 && is_ws(s[0]) {
        trim_start(s.drop_first())
    } else {
        s
    }
}

/// `s` without its trailing white space.
pub open spec fn trim_end(s: Seq<char>) -> Seq<char>
    decreases s.len(),
{
    if s.len() > 0 && is_ws(s.last()) {
        trim_end(s.drop_last())
    } else {
        s
    }
}

/// `s` without leading and trailing white space, as `str::trim` gives it.
pub open spec fn trim_spec(s: Seq<char>) -> Seq<char> {
    trim_end(trim_start(s))
}

/// The characters of `s` without leading and trailing white space.
pub fn trim(s: &[char]) -> (r: Vec<char>)
    ensures
        r@ == trim_spec(s@),
{
    let mut i: usize = 0;
    assert(s@.skip(0) =~= s@);
    while i < s.len() && is_whitespace(s[i])
        invariant
            i <= s.len(),
            trim_start(s@) == trim_start(s@.skip(i as int)),
        decreases s.len() - i,
    {
        assert(s@.skip(i as int).drop_first() =~= s@.skip(i + 1));
        i = i + 1;
    }
    let ghost t = s@.skip(i as int);
    assert(trim_start(s@) == t);
    let mut j: usize = s.len();
    while j > i && is_whitespace(s[j - 1])
        invariant
            i <= j <= s.len(),
            t == s@.skip(i as int),
            trim_end(t) == trim_end(s@.subrange(i as int, j as int)),
        decreases j,
    {
        assert(s@.subrange(i as int, j as int).drop_last() =~= s@.subrange(i as int, j - 1));
        j = j - 1;
    }
    assert(t =~= s@.subrange(i as int, s.len() as int));
    copy_range(s, i, j)
}


/// The character sequences held by a sequence of vectors.
pub open spec fn seq_views(v: Seq<Vec<char>>) -> Seq<Seq<char>> {
    v.map_values(|x: Vec<char>| x@)
}

/// `line` without the carriage return that ends it, if any: what is left
/// of a line that a `"\r\n"` ended.
pub open spec fn strip_cr(line: Seq<char>) -> Seq<char> {
    if line.len() > 0 && line.last() == '\r' {
        line.drop_last()
    } else {
        line
    }
}

/// The lines of `s`, given that `cur` has been read of the line in progress.
pub open spec fn lines_from(s: Seq<char>, cur: Seq<char>) -> Seq<Seq<char>>
    decreases s.len(),
{
    if s.len() == 0 {
        if cur.len() == 0 {
            seq![]
        } else {
            seq![cur]
        }
    } else if s[0] == '\n' {
        seq![strip_cr(cur)] + lines_from(s.drop_first(), seq![])
    } else {
        lines_from(s.drop_first(), cur.push(s[0]))
    }
}

/// The lines of `s` as `str::lines` gives them: split at `'\n'`, a `'\r'`
/// right before the `'\n'` dropped, and no empty line after a final `'\n'`.
pub open spec fn lines_spec(s: Seq<char>) -> Seq<Seq<char>> {
    lines_from(s, seq![])
}

/// The lines of `s`.
pub fn lines(s: &[char]) -> (r: Vec<Vec<char>>)
    ensures
        seq_views(r@) == lines_spec(s@),
{
    let mut done: Vec<Vec<char>> = Vec::new();
    let mut cur: Vec<char> = Vec::new();
    let mut k: usize = 0;
    assert(s@.skip(0) =~= s@);
    assert(seq_views(done@) =~= Seq::<Seq<char>>::empty());
    while k < s.len()
        invariant
            k <= s.len(),
            seq_views(done@) + lines_from(s@.skip(k as int), cur@) == lines_spec(s@),
        decreases s.len() - k,
    {
        let c = s[k];
        assert(s@.skip(k as int).drop_first() =~= s@.skip(k + 1));
        let ghost before = seq_views(done@);
        if c == '\n' {
            let mut line = cur;
            if line.len() > 0 && line[line.len() - 1] == '\r' {
                line.pop();
            }
            assert(line@ == strip_cr(cur@));
            done.push(line);
            assert(seq_views(done@) =~= before.push(strip_cr(cur@)));
            assert(seq![strip_cr(cur@)] + lines_from(s@.skip(k + 1), seq![]) =~= seq![
                strip_cr(cur@),
            ].add(lines_from(s@.skip(k + 1), seq![])));
            assert(before.push(strip_cr(cur@)) + lines_from(s@.skip(k + 1), seq![]) =~= before + (
            seq![strip_cr(cur@)] + lines_from(s@.skip(k + 1), seq![])));
            cur = Vec::new();
            assert(cur@ =~= Seq::<char>::empty());
        } else {
            cur.push(c);
        }
        k = k + 1;
    }
    if cur.len() > 0 {
        let ghost before = seq_views(done@);
        done.push(cur);
        assert(seq_views(done@) =~= before + lines_from(s@.skip(k as int), cur@));
    } else {
        assert(seq_views(done@) =~= seq_views(done@) + lines_from(s@.skip(k as int), cur@));
    }
    done
}

/// The white-space separated words of `s`, given that `cur` has been read of
/// the word in progress.
pub open spec fn words_from(s: Seq<char>, cur: Seq<char>) -> Seq<Seq<char>>
    decreases s.len(),
{
    if s.len() == 0 {
        if cur.len() == 0 {
            seq![]
        } else {
            seq![cur]
        }
    } else if is_ws(s[0]) {
        (if cur.len() == 0 {
            seq![]
        } else {
            seq![cur]
        }) + words_from(s.drop_first(), seq![])
    } else {
        words_from(s.drop_first(), cur.push(s[0]))
    }
}

/// The words of `s` as `str::split_whitespace` gives them.
pub open spec fn words_spec(s: Seq<char>) -> Seq<Seq<char>> {
    words_from(s, seq![])
}

/// The white-space separated words of `s`.
pub fn words(s: &[char]) -> (r: Vec<Vec<char>>)
    ensures
        seq_views(r@) == words_spec(s@),
{
    let mut done: Vec<Vec<char>> = Vec::new();
    let mut cur: Vec<char> = Vec::new();
    let mut k: usize = 0;
    assert(s@.skip(0) =~= s@);
    assert(seq_views(done@) =~= Seq::<Seq<char>>::empty());
    while k < s.len()
        invariant
            k <= s.len(),
            seq_views(done@) + words_from(s@.skip(k as int), cur@) == words_spec(s@),
        decreases s.len() - k,
    {
        let c = s[k];
        assert(s@.skip(k as int).drop_first() =~= s@.skip(k + 1));
        let ghost before = seq_views(done@);
        let ghost old_cur = cur@;
        if is_whitespace(c) {
            if cur.len() > 0 {
                done.push(cur);
                assert(seq_views(done@) =~= before.push(old_cur));
                assert(before.push(old_cur) + words_from(s@.skip(k + 1), seq![]) =~= before + (
                seq![old_cur] + words_from(s@.skip(k + 1), seq![])));
            } else {
                assert(before + words_from(s@.skip(k + 1), seq![]) =~= before + (seq![]
                    + words_from(s@.skip(k + 1), seq![])));
            }
            cur = Vec::new();
            assert(cur@ =~= Seq::<char>::empty());
        } else {
            cur.push(c);
        }
        k = k + 1;
    }
    if cur.len() > 0 {
        let ghost before = seq_views(done@);
        done.push(cur);
        assert(seq_views(done@) =~= before + words_from(s@.skip(k as int), cur@));
    } else {
        assert(seq_views(done@) =~= seq_views(done@) + words_from(s@.skip(k as int), cur@));
    }
    done
}


/// The value of `c` as a digit in base `radix`, as `char::to_digit` gives it.
pub open spec fn digit_of(c: char, radix: nat) -> Option<nat> {
    let u = c as u32;
    let d: int = if 48 <= u <= 57 {
        u - 48
    } else if 97 <= u <= 122 {
        u - 97 + 10
    } else if 65 <= u <= 90 {
        u - 65 + 10
    } else {
        36
    };
    if d < radix {
        Some(d as nat)
    } else {
        None
    }
}

/// Whether every character of `s` is a digit in base `radix`.
pub open spec fn all_digits(s: Seq<char>, radix: nat) -> bool {
    forall|i: int| 0 <= i < s.len() ==> (#[trigger] digit_of(s[i], radix)) is Some
}

/// The number that the digits `s` spell in base `radix`, most significant first.
pub open spec fn digits_value(s: Seq<char>, radix: nat) -> nat
    decreases s.len(),
{
    if s.len() == 0 {
        0
    } else {
        digits_value(s.drop_last(), radix) * radix + digit_of(s.last(), radix).unwrap()
    }
}

/// What `from_str_radix` of an unsigned integer type whose largest value is
/// `max` gives for `s`: an optional `'+'`, then at least one digit, and a
/// value that fits.
pub open spec fn parse_unsigned(s: Seq<char>, radix: nat, max: nat) -> Option<nat> {
    let d = if s.len() > 0 && s[0] == '+' {
        s.drop_first()
    } else {
        s
    };
    if d.len() > 0 && all_digits(d, radix) && digits_value(d, radix) <= max {
        Some(digits_value(d, radix))
    } else {
        None
    }
}

/// What `from_str_radix` of a signed integer type ranging over `min..=max`
/// gives for `s`: an optional `'+'` or `'-'`, then at least one digit, and a
/// value in range.
pub open spec fn parse_signed(s: Seq<char>, radix: nat, min: int, max: nat) -> Option<int> {
    if s.len() > 0 && s[0] == '-' {
        let d = s.drop_first();
        if d.len() > 0 && all_digits(d, radix) && -digits_value(d, radix) >= min {
            Some(-digits_value(d, radix))
        } else {
            None
        }
    } else {
        match parse_unsigned(s, radix, max) {
            Some(v) => Some(v as int),
            None => None,
        }
    }
}

/// The value of `c` as a digit in base `radix`.
pub fn to_digit(c: char, radix: u32) -> (r: Option<u32>)
    requires
        2 <= radix <= 36,
    ensures
        match r {
            Some(v) => digit_of(c, radix as nat) == Some(v as nat) && v < radix,
            None => digit_of(c, radix as nat) is None,
        },
{
    let u = c as u32;
    let d: u32 = if 48 <= u && u <= 57 {
        u - 48
    } else if 97 <= u && u <= 122 {
        u - 97 + 10
    } else if 65 <= u && u <= 90 {
        u - 65 + 10
    } else {
        36
    };
    if d < radix {
        Some(d)
    } else {
        None
    }
}

/// The value of a prefix of a digit string is no larger than that of the whole.
pub proof fn lemma_digits_value_prefix(s: Seq<char>, radix: nat, k: int)
    requires
        radix >= 1,
        0 <= k <= s.len(),
        all_digits(s, radix),
    ensures
        digits_value(s.take(k), radix) <= digits_value(s, radix),
    decreases s.len() - k,
{
    if k < s.len() {
        lemma_digits_value_prefix(s, radix, k + 1);
        let t = s.take(k + 1);
        assert(t.drop_last() =~= s.take(k));
        assert(digit_of(s[k], radix) is Some);
        let a = digits_value(s.take(k), radix);
        assert(a * radix >= a) by (nonlinear_arith)
            requires
                radix >= 1,
        ;
    } else {
        assert(s.take(k) =~= s);
    }
}

/// The value of the digits of `s` from index `start` on, if they are all
/// digits in base `radix`, there is at least one, and the value is at most `max`.
pub fn parse_digits(s: &[char], start: usize, radix: u32, max: u64) -> (r: Option<u64>)
    requires
        start <= s.len(),
        2 <= radix <= 36,
    ensures
        ({
            let d = s@.skip(start as int);
            match r {
                Some(v) => d.len() > 0 && all_digits(d, radix as nat) && digits_value(
                    d,
                    radix as nat,
                ) == v && v <= max,
                None => !(d.len() > 0 && all_digits(d, radix as nat) && digits_value(
                    d,
                    radix as nat,
                ) <= max),
            }
        }),
{
    let ghost d = s@.skip(start as int);
    if start == s.len() {
        return None;
    }
    let mut acc: u64 = 0;
    let mut k: usize = start;
    assert(d.take(0) =~= Seq::<char>::empty());
    while k < s.len()
        invariant
            start <= k <= s.len(),
            2 <= radix <= 36,
            d == s@.skip(start as int),
            all_digits(d.take(k - start), radix as nat),
            acc == digits_value(d.take(k - start), radix as nat),
            acc <= max,
        decreases s.len() - k,
    {
        let j: usize = k - start;
        assert(d.take(j + 1).drop_last() =~= d.take(j as int));
        assert(d.take(j + 1).last() == s@[k as int]);
        match to_digit(s[k], radix) {
            None => {
                assert(digit_of(d[j as int], radix as nat) is None);
                return None;
            },
            Some(dig) => {
                assert((acc as u128) * (radix as u128) <= 36 * 0xffff_ffff_ffff_ffffu128)
                    by (nonlinear_arith)
                    requires
                        acc <= 0xffff_ffff_ffff_ffffu64,
                        radix <= 36,
                ;
                let next: u128 = (acc as u128) * (radix as u128) + (dig as u128);
                assert(all_digits(d.take(j + 1), radix as nat)) by {
                    assert forall|i: int| 0 <= i < j + 1 implies (#[trigger] digit_of(
                        d.take(j + 1)[i],
                        radix as nat,
                    )) is Some by {
                        if i < j {
                            assert(d.take(j + 1)[i] == d.take(j as int)[i]);
                        }
                    }
                }
                assert(next == digits_value(d.take(j + 1), radix as nat));
                if next > max as u128 {
                    proof {
                        if all_digits(d, radix as nat) {
                            lemma_digits_value_prefix(d, radix as nat, j + 1);
                        }
                    }
                    return None;
                }
                acc = next as u64;
            },
        }
        k = k + 1;
    }
    assert(d.take(k - start) =~= d);
    Some(acc)
}

/// What `u64::from_str` gives for `s`.
pub fn parse_u64(s: &[char]) -> (r: Option<u64>)
    ensures
        match r {
            Some(v) => parse_unsigned(s@, 10, u64::MAX as nat) == Some(v as nat),
            None => parse_unsigned(s@, 10, u64::MAX as nat) is None,
        },
{
    let start: usize = if s.len() > 0 && s[0] == '+' {
        1
    } else {
        0
    };
    assert(s@.skip(start as int) =~= (if s@.len() > 0 && s@[0] == '+' {
        s@.drop_first()
    } else {
        s@
    }));
    parse_digits(s, start, 10, u64::MAX)
}

/// What `u32::from_str_radix(s, radix)` gives for `s`.
pub fn parse_u32_radix(s: &[char], radix: u32) -> (r: Option<u32>)
    requires
        2 <= radix <= 36,
    ensures
        match r {
            Some(v) => parse_unsigned(s@, radix as nat, u32::MAX as nat) == Some(v as nat),
            None => parse_unsigned(s@, radix as nat, u32::MAX as nat) is None,
        },
{
    let start: usize = if s.len() > 0 && s[0] == '+' {
        1
    } else {
        0
    };
    assert(s@.skip(start as int) =~= (if s@.len() > 0 && s@[0] == '+' {
        s@.drop_first()
    } else {
        s@
    }));
    match parse_digits(s, start, radix, u32::MAX as u64) {
        Some(v) => Some(v as u32),
        None => None,
    }
}

/// What `i8::from_str` gives for `s`.
pub fn parse_i8(s: &[char]) -> (r: Option<i8>)
    ensures
        match r {
            Some(v) => parse_signed(s@, 10, i8::MIN as int, i8::MAX as nat) == Some(v as int),
            None => parse_signed(s@, 10, i8::MIN as int, i8::MAX as nat) is None,
        },
{
    if s.len() > 0 && s[0] == '-' {
        assert(s@.skip(1) =~= s@.drop_first());
        match parse_digits(s, 1, 10, 128) {
            Some(v) => Some((0 - (v as i16)) as i8),
            None => None,
        }
    } else {
        let start: usize = if s.len() > 0 && s[0] == '+' {
            1
        } else {
            0
        };
        assert(s@.skip(start as int) =~= (if s@.len() > 0 && s@[0] == '+' {
            s@.drop_first()
        } else {
            s@
        }));
        match parse_digits(s, start, 10, 127) {
            Some(v) => Some(v as i8),
            None => None,
        }
    }
}

/// The decimal digit character for `d`.
pub open spec fn digit_char(d: nat) -> char {
    (d + 48) as char
}

/// The decimal representation of `n`, without leading zeros.
pub open spec fn decimal(n: nat) -> Seq<char>
    decreases n,
{
    if n < 10 {
        seq![digit_char(n)]
    } else {
        decimal(n / 10).push(digit_char(n % 10))
    }
}

/// Appends the decimal representation of `n` to `out`, as `{}` formats it.
pub fn push_decimal(out: &mut Vec<char>, n: u64)
    ensures
        final(out)@ == old(out)@ + decimal(n as nat),
    decreases n,
{
    if n >= 10 {
        push_decimal(out, n / 10);
    }
    let d: u8 = (n % 10) as u8;
    let c: char = (d + 48) as char;
    assert(c == digit_char((n % 10) as nat));
    let ghost mid = out@;
    out.push(c);
    if n >= 10 {
        assert(out@ =~= old(out)@ + decimal(n as nat));
    } else {
        assert(out@ =~= old(out)@ + decimal(n as nat));
    }
}


/// `s` with every leading copy of `p` removed, as `str::trim_start_matches`
/// gives it.
pub open spec fn strip_all_prefixes(s: Seq<char>, p: Seq<char>) -> Seq<char>
    decreases s.len(),
{
    if p.len() > 0 && strip_prefix_spec(s, p) is Some {
        strip_all_prefixes(s.skip(p.len() as int), p)
    } else {
        s
    }
}

/// The characters of `s` with every leading copy of `p` removed.
pub fn strip_all_prefixes_of(s: &[char], p: &str) -> (r: Vec<char>)
    ensures
        r@ == strip_all_prefixes(s@, p@),
{
    let plen = p.unicode_len();
    let mut cur = copy_range(s, 0, s.len());
    assert(cur@ =~= s@);
    if plen == 0 {
        return cur;
    }
    loop
        invariant
            plen == p@.len(),
            plen > 0,
            strip_all_prefixes(cur@, p@) == strip_all_prefixes(s@, p@),
        decreases cur@.len(),
    {
        match strip_prefix(cur.as_slice(), p) {
            Some(rest) => {
                cur = rest;
            },
            None => {
                return cur;
            },
        }
    }
}


/// `b` to the power `n`.
pub open spec fn power(b: nat, n: nat) -> nat
    decreases n,
{
    if n == 0 {
        1
    } else {
        b * power(b, (n - 1) as nat)
    }
}

/// Digit strings spell numbers below `radix` to the power of their length.
pub proof fn lemma_digits_value_bound(s: Seq<char>, radix: nat)
    requires
        radix >= 2,
        all_digits(s, radix),
    ensures
        digits_value(s, radix) < power(radix, s.len()),
    decreases s.len(),
{
    if s.len() > 0 {
        let t = s.drop_last();
        assert(all_digits(t, radix)) by {
            assert forall|i: int| 0 <= i < t.len() implies (#[trigger] digit_of(t[i], radix)) is Some by {
                assert(t[i] == s[i]);
            }
        }
        lemma_digits_value_bound(t, radix);
        assert(digit_of(s[s.len() - 1], radix) is Some);
        let a = digits_value(t, radix);
        let d = digit_of(s.last(), radix).unwrap();
        let p = power(radix, t.len());
        assert(a * radix + d < p * radix) by (nonlinear_arith)
            requires
                a < p,
                d < radix,
                a >= 0,
        ;
        assert(power(radix, s.len()) == radix * p);
    }
}

} // verus!
