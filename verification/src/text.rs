//! Text helpers: every operation on `str` that the panels need, stated over
//! the characters of the text.

use vstd::prelude::*;
use vstd::string::*;

verus! {

/// `String::push` appends one character to the end of the string.
pub assume_specification[ String::push ](s: &mut String, c: char)
    ensures
        final(s)@ == old(s)@.push(c),
;

// ---- characters ----

/// The Unicode `White_Space` property.
pub open spec fn is_white(c: char) -> bool {
    let n = c as u32;
    ||| 0x9 <= n <= 0xd
    ||| n == 0x20
    ||| n == 0x85
    ||| n == 0xa0
    ||| n == 0x1680
    ||| 0x2000 <= n <= 0x200a
    ||| n == 0x2028
    ||| n == 0x2029
    ||| n == 0x202f
    ||| n == 0x205f
    ||| n == 0x3000
}

/// The Unicode control characters (general category `Cc`).
pub open spec fn is_ctrl(c: char) -> bool {
    let n = c as u32;
    n <= 0x1f || 0x7f <= n <= 0x9f
}

/// The decimal digits `0` to `9`.
pub open spec fn is_digit(c: char) -> bool {
    '0' <= c <= '9'
}

pub fn isWhite(c: char) -> (r: bool)
    ensures
        r == is_white(c),
{
    let n: u32 = c as u32;
    (0x9 <= n && n <= 0xd) || n == 0x20 || n == 0x85 || n == 0xa0 || n == 0x1680 || (0x2000 <= n
        && n <= 0x200a) || n == 0x2028 || n == 0x2029 || n == 0x202f || n == 0x205f || n == 0x3000
}

pub fn isCtrl(c: char) -> (r: bool)
    ensures
        r == is_ctrl(c),
{
    let n: u32 = c as u32;
    n <= 0x1f || (0x7f <= n && n <= 0x9f)
}

// ---- views of lists of texts ----

/// The texts held by a list of strings.
pub open spec fn texts(v: Seq<String>) -> Seq<Seq<char>> {
    Seq::new(v.len(), |i: int| v[i]@)
}

/// The text held by an optional string.
pub open spec fn opt_text(o: Option<String>) -> Option<Seq<char>> {
    match o {
        Some(s) => Some(s@),
        None => None,
    }
}

// ---- conversions ----

/// The characters of `s`, in order.
pub fn charsOf(s: &str) -> (v: Vec<char>)
    ensures
        v@ == s@,
{
    let mut v: Vec<char> = Vec::new();
    for c in it: s.chars()
        invariant
            v@ == it.seq().take(it.index()),
            it.seq() == s@,
    {
        proof {
            assert(it.seq().take(it.index() + 1) =~= it.seq().take(it.index()).push(c));
        }
        v.push(c);
    }
    proof {
        assert(s@.take(s@.len() as int) =~= s@);
    }
    v
}

/// The string made of `v[from..to]`.
pub fn fromRange(v: &Vec<char>, from: usize, to: usize) -> (s: String)
    requires
        from <= to <= v.len(),
    ensures
        s@ == v@.subrange(from as int, to as int),
{
    let mut s = String::new();
    let mut i: usize = from;
    while i < to
        invariant
            from <= i <= to <= v.len(),
            s@ == v@.subrange(from as int, i as int),
        decreases to - i,
    {
        s.push(v[i]);
        proof {
            assert(v@.subrange(from as int, i as int).push(v@[i as int]) =~= v@.subrange(
                from as int,
                i + 1,
            ));
        }
        i = i + 1;
    }
    s
}

// ---- comparison ----

/// Whether the two texts are the same.
pub fn strEq(a: &str, b: &str) -> (r: bool)
    ensures
        r == (a@ == b@),
{
    let n: usize = a.unicode_len();
    if n != b.unicode_len() {
        return false;
    }
    let x = charsOf(a);
    let y = charsOf(b);
    let mut i: usize = 0;
    while i < n
        invariant
            i <= n,
            n == x.len(),
            n == y.len(),
            x@ == a@,
            y@ == b@,
            forall|j: int| 0 <= j < i ==> x@[j] == y@[j],
        decreases n - i,
    {
        if x[i] != y[i] {
            proof {
                assert(a@[i as int] != b@[i as int]);
            }
            return false;
        }
        i = i + 1;
    }
    proof {
        assert(a@ =~= b@);
    }
    true
}

/// Whether `s` begins with `p`.
pub open spec fn has_prefix(s: Seq<char>, p: Seq<char>) -> bool {
    p.len() <= s.len() && s.take(p.len() as int) == p
}

pub fn startsWith(s: &str, p: &str) -> (r: bool)
    ensures
        r == has_prefix(s@, p@),
{
    let n: usize = p.unicode_len();
    if n > s.unicode_len() {
        return false;
    }
    let head = s.substring_char(0, n);
    proof {
        assert(s@.subrange(0, n as int) =~= s@.take(n as int));
    }
    strEq(head, p)
}

/// Whether `s` ends with `p`.
pub open spec fn has_suffix(s: Seq<char>, p: Seq<char>) -> bool {
    p.len() <= s.len() && s.skip(s.len() - p.len()) == p
}

pub fn endsWith(s: &str, p: &str) -> (r: bool)
    ensures
        r == has_suffix(s@, p@),
{
    let n: usize = s.unicode_len();
    let m: usize = p.unicode_len();
    if m > n {
        return false;
    }
    let tail = s.substring_char(n - m, n);
    proof {
        assert(tail@ =~= s@.skip(s@.len() - p@.len()));
    }
    strEq(tail, p)
}

/// Whether `p` occurs in `s` at `i`.
pub open spec fn occurs_at(s: Seq<char>, p: Seq<char>, i: int) -> bool {
    0 <= i && i + p.len() <= s.len() && s.subrange(i, i + p.len()) == p
}

/// The first place of `p` in `s` from `i` on.
pub open spec fn find_from(s: Seq<char>, p: Seq<char>, i: int) -> Option<int>
    decreases s.len() + 1 - i,
{
    if i > s.len() {
        None
    } else if occurs_at(s, p, i) {
        Some(i)
    } else {
        find_from(s, p, i + 1)
    }
}

proof fn lemma_find_from(s: Seq<char>, p: Seq<char>, i: int, k: int)
    requires
        0 <= i <= k,
        forall|j: int| i <= j < k ==> !#[trigger] occurs_at(s, p, j),
    ensures
        occurs_at(s, p, k) ==> find_from(s, p, i) == Some(k),
        k > s.len() ==> find_from(s, p, i) is None,
    decreases k - i,
{
    if i < k {
        assert(!occurs_at(s, p, i));
        lemma_find_from(s, p, i + 1, k);
    }
}

/// The first place of `p` in `s`.
pub fn findFirst(s: &str, p: &str) -> (r: Option<usize>)
    ensures
        match r {
            Some(i) => find_from(s@, p@, 0) == Some(i as int) && occurs_at(s@, p@, i as int),
            None => find_from(s@, p@, 0) is None,
        },
{
    let r = findStr(s, p);
    proof {
        match r {
            Some(i) => {
                lemma_find_from(s@, p@, 0, i as int);
            },
            None => {
                lemma_find_from(s@, p@, 0, s@.len() as int + 1);
            },
        }
    }
    r
}

/// The first place at which `p` occurs in `s`, counted in characters.
pub fn findStr(s: &str, p: &str) -> (r: Option<usize>)
    ensures
        match r {
            Some(i) => occurs_at(s@, p@, i as int) && forall|j: int|
                0 <= j < i ==> !#[trigger] occurs_at(s@, p@, j),
            None => forall|j: int| !#[trigger] occurs_at(s@, p@, j),
        },
{
    let n: usize = s.unicode_len();
    let m: usize = p.unicode_len();
    if m > n {
        return None;
    }
    let mut i: usize = 0;
    while i <= n - m
        invariant
            n == s@.len(),
            m == p@.len(),
            m <= n,
            i <= n - m + 1,
            forall|j: int| 0 <= j < i ==> !#[trigger] occurs_at(s@, p@, j),
        decreases n - m + 1 - i,
    {
        if strEq(s.substring_char(i, i + m), p) {
            return Some(i);
        }
        if i == n - m {
            return None;
        }
        i = i + 1;
    }
    None
}

// ---- trimming ----

/// `s` without its leading white space.
pub open spec fn trim_start(s: Seq<char>) -> Seq<char>
    decreases s.len(),
{
    if s.len() > 0 && is_white(s[0]) {
        trim_start(s.skip(1))
    } else {
        s
    }
}

/// `s` without its trailing white space.
pub open spec fn trim_end(s: Seq<char>) -> Seq<char>
    decreases s.len(),
{
    if s.len() > 0 && is_white(s.last()) {
        trim_end(s.drop_last())
    } else {
        s
    }
}

/// `s` without its leading and trailing white space.
pub open spec fn trimmed(s: Seq<char>) -> Seq<char> {
    trim_end(trim_start(s))
}

pub fn trimStart(s: &str) -> (r: String)
    ensures
        r@ == trim_start(s@),
{
    let v = charsOf(s);
    let mut i: usize = 0;
    proof {
        assert(s@.skip(0) =~= s@);
    }
    while i < v.len() && isWhite(v[i])
        invariant
            i <= v.len(),
            v@ == s@,
            trim_start(s@.skip(i as int)) == trim_start(s@),
        decreases v.len() - i,
    {
        proof {
            assert(s@.skip(i as int).skip(1) =~= s@.skip(i + 1));
        }
        i = i + 1;
    }
    proof {
        assert(v@.subrange(i as int, v@.len() as int) =~= s@.skip(i as int));
    }
    fromRange(&v, i, v.len())
}

pub fn trimEnd(s: &str) -> (r: String)
    ensures
        r@ == trim_end(s@),
{
    let v = charsOf(s);
    let mut i: usize = v.len();
    proof {
        assert(s@.take(s@.len() as int) =~= s@);
    }
    while i > 0 && isWhite(v[i - 1])
        invariant
            i <= v.len(),
            v@ == s@,
            trim_end(s@.take(i as int)) == trim_end(s@),
        decreases i,
    {
        proof {
            assert(s@.take(i as int).drop_last() =~= s@.take(i - 1));
        }
        i = i - 1;
    }
    proof {
        assert(v@.subrange(0, i as int) =~= s@.take(i as int));
    }
    fromRange(&v, 0, i)
}

pub fn trim(s: &str) -> (r: String)
    ensures
        r@ == trimmed(s@),
{
    let t = trimStart(s);
    trimEnd(t.as_str())
}

// ---- cutting and padding ----

/// The first `n` characters of `s`, or all of it when it is shorter.
pub open spec fn first_chars(s: Seq<char>, n: int) -> Seq<char> {
    if n < s.len() {
        s.take(n)
    } else {
        s
    }
}

pub fn firstChars(s: &str, n: usize) -> (r: String)
    ensures
        r@ == first_chars(s@, n as int),
{
    if n < s.unicode_len() {
        proof {
            assert(s@.subrange(0, n as int) =~= s@.take(n as int));
        }
        String::from_str(s.substring_char(0, n))
    } else {
        String::from_str(s)
    }
}

/// The character `c`, `n` times.
pub open spec fn repeated(c: char, n: int) -> Seq<char> {
    Seq::new(n as nat, |i: int| c)
}

pub fn repeatChar(c: char, n: usize) -> (r: String)
    ensures
        r@ == repeated(c, n as int),
{
    let mut s = String::new();
    let mut i: usize = 0;
    while i < n
        invariant
            i <= n,
            s@ == repeated(c, i as int),
        decreases n - i,
    {
        s.push(c);
        i = i + 1;
        proof {
            assert(s@ =~= repeated(c, i as int));
        }
    }
    s
}

/// `s` filled up with spaces on the right to `n` characters.
pub open spec fn pad_right(s: Seq<char>, n: int) -> Seq<char> {
    if s.len() < n {
        s + repeated(' ', n - s.len())
    } else {
        s
    }
}

pub fn padRight(s: &str, n: usize) -> (r: String)
    ensures
        r@ == pad_right(s@, n as int),
{
    let len: usize = s.unicode_len();
    let mut out = String::from_str(s);
    if len < n {
        let fill = repeatChar(' ', n - len);
        out.append(fill.as_str());
    }
    out
}

/// `s` in the middle of `n` characters, with the odd space behind it. A longer
/// text stays as it is.
pub open spec fn center_text(s: Seq<char>, n: int) -> Seq<char> {
    if s.len() >= n {
        s
    } else {
        let pad = n - s.len();
        repeated(' ', pad / 2) + s + repeated(' ', pad - pad / 2)
    }
}

pub fn centerText(s: &str, n: usize) -> (r: String)
    ensures
        r@ == center_text(s@, n as int),
{
    let len: usize = s.unicode_len();
    if len >= n {
        return String::from_str(s);
    }
    let pad: usize = n - len;
    let mut out = repeatChar(' ', pad / 2);
    out.append(s);
    out.append(repeatChar(' ', pad - pad / 2).as_str());
    out
}

// ---- lengths in bytes ----

/// The number of bytes that `c` takes in UTF-8.
pub open spec fn char_bytes(c: char) -> nat {
    let n = c as u32;
    if n < 0x80 {
        1
    } else if n < 0x800 {
        2
    } else if n < 0x10000 {
        3
    } else {
        4
    }
}

/// The number of bytes that `s` takes in UTF-8.
pub open spec fn byte_len(s: Seq<char>) -> nat
    decreases s.len(),
{
    if s.len() == 0 {
        0
    } else {
        byte_len(s.drop_last()) + char_bytes(s.last())
    }
}

/// The longest prefix of `s` that takes at most `n` bytes.
pub open spec fn cut_bytes(s: Seq<char>, n: int) -> Seq<char>
    decreases s.len(),
{
    if s.len() == 0 || byte_len(s) <= n {
        s
    } else {
        cut_bytes(s.drop_last(), n)
    }
}

fn charBytes(c: char) -> (r: usize)
    ensures
        r == char_bytes(c),
        1 <= r <= 4,
{
    let n: u32 = c as u32;
    if n < 0x80 {
        1
    } else if n < 0x800 {
        2
    } else if n < 0x10000 {
        3
    } else {
        4
    }
}

/// A character takes at least one byte.
pub proof fn lemma_chars_in_bytes(s: Seq<char>)
    ensures
        s.len() <= byte_len(s),
    decreases s.len(),
{
    if s.len() > 0 {
        lemma_chars_in_bytes(s.drop_last());
    }
}

/// A cut text has no more characters than it may take bytes.
pub proof fn lemma_cut_bytes_len(s: Seq<char>, n: int)
    requires
        n >= 0,
    ensures
        cut_bytes(s, n).len() <= n,
    decreases s.len(),
{
    lemma_chars_in_bytes(s);
    if s.len() > 0 && byte_len(s) > n {
        lemma_cut_bytes_len(s.drop_last(), n);
    }
}

proof fn lemma_byte_len_prefix(s: Seq<char>, k: int)
    requires
        0 <= k <= s.len(),
    ensures
        byte_len(s.take(k)) <= byte_len(s),
        k < s.len() ==> byte_len(s.take(k)) < byte_len(s),
    decreases s.len() - k,
{
    if k < s.len() {
        lemma_byte_len_prefix(s, k + 1);
        assert(s.take(k + 1).drop_last() =~= s.take(k));
    } else {
        assert(s.take(k) =~= s);
    }
}

proof fn lemma_cut_bytes(s: Seq<char>, n: int, k: int)
    requires
        0 <= k <= s.len(),
        byte_len(s.take(k)) <= n,
        k < s.len() ==> byte_len(s.take(k + 1)) > n,
    ensures
        cut_bytes(s, n) == s.take(k),
    decreases s.len(),
{
    assert(s.take(s.len() as int) =~= s);
    if k < s.len() {
        lemma_byte_len_prefix(s, k + 1);
        assert(s.drop_last().take(k) =~= s.take(k));
        if k + 1 < s.len() {
            assert(s.drop_last().take(k + 1) =~= s.take(k + 1));
        }
        lemma_cut_bytes(s.drop_last(), n, k);
    }
}

/// How many characters of `s`, from the start, fit into `n` bytes.
fn fitChars(v: &Vec<char>, n: usize) -> (k: usize)
    ensures
        k <= v.len(),
        byte_len(v@.take(k as int)) <= n,
        k < v.len() ==> byte_len(v@.take(k + 1)) > n,
{
    let mut k: usize = 0;
    let mut used: usize = 0;
    while k < v.len()
        invariant
            k <= v.len(),
            used == byte_len(v@.take(k as int)),
            used <= n,
        decreases v.len() - k,
    {
        proof {
            assert(v@.take(k + 1).drop_last() =~= v@.take(k as int));
        }
        let size: usize = charBytes(v[k]);
        if size > n - used {
            return k;
        }
        used = used + size;
        k = k + 1;
    }
    k
}

/// The bytes that `s` takes, or `n` where it takes more.
pub fn bytesUpTo(s: &str, n: usize) -> (r: usize)
    ensures
        r == (if byte_len(s@) <= n {
            byte_len(s@) as int
        } else {
            n as int
        }),
{
    let v = charsOf(s);
    let mut used: usize = 0;
    let mut k: usize = 0;
    while k < v.len()
        invariant
            k <= v@.len(),
            v@ == s@,
            used == byte_len(s@.take(k as int)),
            used <= n,
        decreases v@.len() - k,
    {
        proof {
            assert(s@.take(k + 1).drop_last() =~= s@.take(k as int));
            lemma_byte_len_prefix(s@, k + 1);
        }
        let size: usize = charBytes(v[k]);
        if size > n - used {
            return n;
        }
        used = used + size;
        k = k + 1;
    }
    proof {
        assert(s@.take(s@.len() as int) =~= s@);
    }
    used
}

/// Whether `s` takes more than `n` bytes.
pub fn bytesExceed(s: &str, n: usize) -> (r: bool)
    ensures
        r == (byte_len(s@) > n),
{
    let v = charsOf(s);
    let k: usize = fitChars(&v, n);
    proof {
        assert(v@.take(v@.len() as int) =~= v@);
        if k < v.len() {
            lemma_byte_len_prefix(v@, k + 1);
        }
    }
    k < v.len()
}

pub fn cutBytes(s: &str, n: usize) -> (r: String)
    ensures
        r@ == cut_bytes(s@, n as int),
{
    let v = charsOf(s);
    let k: usize = fitChars(&v, n);
    proof {
        lemma_cut_bytes(v@, n as int, k as int);
        assert(v@.subrange(0, k as int) =~= v@.take(k as int));
    }
    fromRange(&v, 0, k)
}

// ---- numbers ----

/// The decimal digit of `n`.
pub open spec fn digit(n: nat) -> char {
    seq!['0', '1', '2', '3', '4', '5', '6', '7', '8', '9'][n as int]
}

/// `n` in decimal notation.
pub open spec fn dec(n: nat) -> Seq<char>
    decreases n,
{
    if n < 10 {
        seq![digit(n)]
    } else {
        dec(n / 10).push(digit(n % 10))
    }
}

/// `n` in decimal notation, with a sign where it is negative.
pub open spec fn dec_int(n: int) -> Seq<char> {
    if n < 0 {
        seq!['-'] + dec((-n) as nat)
    } else {
        dec(n as nat)
    }
}

/// `n` in decimal notation with at least two digits.
pub open spec fn dec2(n: nat) -> Seq<char> {
    if n < 10 {
        seq!['0'] + dec(n)
    } else {
        dec(n)
    }
}

fn digitChar(n: u64) -> (c: char)
    requires
        n < 10,
    ensures
        c == digit(n as nat),
{
    if n == 0 {
        '0'
    } else if n == 1 {
        '1'
    } else if n == 2 {
        '2'
    } else if n == 3 {
        '3'
    } else if n == 4 {
        '4'
    } else if n == 5 {
        '5'
    } else if n == 6 {
        '6'
    } else if n == 7 {
        '7'
    } else if n == 8 {
        '8'
    } else {
        '9'
    }
}

pub fn decimal(n: u64) -> (r: String)
    ensures
        r@ == dec(n as nat),
    decreases n,
{
    if n < 10 {
        let mut s = String::new();
        s.push(digitChar(n));
        proof {
            assert(s@ =~= seq![digit(n as nat)]);
        }
        s
    } else {
        let mut s = decimal(n / 10);
        s.push(digitChar(n % 10));
        s
    }
}

pub fn decimalInt(n: i64) -> (r: String)
    ensures
        r@ == dec_int(n as int),
{
    if n < 0 {
        let mut s = String::new();
        s.push('-');
        let m: u64 = if n == i64::MIN {
            0x8000_0000_0000_0000
        } else {
            (-n) as u64
        };
        let d = decimal(m);
        s.append(d.as_str());
        proof {
            assert(s@ =~= seq!['-'] + dec(m as nat));
        }
        s
    } else {
        decimal(n as u64)
    }
}

pub fn decimal2(n: u64) -> (r: String)
    ensures
        r@ == dec2(n as nat),
{
    let d = decimal(n);
    if n < 10 {
        let mut s = String::new();
        s.push('0');
        s.append(d.as_str());
        proof {
            assert(s@ =~= seq!['0'] + dec(n as nat));
        }
        s
    } else {
        d
    }
}

spec fn power10(k: nat) -> nat
    decreases k,
{
    if k == 0 {
        1
    } else {
        10 * power10((k - 1) as nat)
    }
}

proof fn lemma_dec_digits(n: nat, k: nat)
    requires
        k >= 1,
        n < power10(k),
    ensures
        1 <= dec(n).len() <= k,
    decreases k,
{
    if n >= 10 {
        if k == 1 {
            assert(power10(1) == 10) by {
                reveal_with_fuel(power10, 2);
            }
        } else {
            lemma_dec_digits(n / 10, (k - 1) as nat);
        }
    }
}

/// A number of 64 bits has at most twenty decimal digits.
pub proof fn lemma_dec_len(n: u64)
    ensures
        1 <= dec(n as nat).len() <= 20,
{
    assert(power10(20) == 100000000000000000000) by {
        reveal_with_fuel(power10, 21);
    }
    lemma_dec_digits(n as nat, 20);
}

// ---- splitting and joining ----

/// The pieces of `s` between the occurrences of `c`.
pub open spec fn split_on(s: Seq<char>, c: char) -> Seq<Seq<char>>
    decreases s.len(),
{
    if s.len() == 0 {
        seq![Seq::<char>::empty()]
    } else {
        let r = split_on(s.drop_last(), c);
        if s.last() == c {
            r.push(Seq::<char>::empty())
        } else {
            r.drop_last().push(r.last().push(s.last()))
        }
    }
}

pub proof fn lemma_split_nonempty(s: Seq<char>, c: char)
    ensures
        split_on(s, c).len() >= 1,
    decreases s.len(),
{
    if s.len() > 0 {
        lemma_split_nonempty(s.drop_last(), c);
    }
}

pub fn splitOn(s: &str, c: char) -> (r: Vec<String>)
    ensures
        texts(r@) == split_on(s@, c),
        r@.len() >= 1,
{
    let v = charsOf(s);
    let mut out: Vec<String> = Vec::new();
    let mut cur = String::new();
    let mut i: usize = 0;
    proof {
        assert(texts(out@).push(cur@) =~= split_on(s@.take(0), c));
    }
    while i < v.len()
        invariant
            i <= v.len(),
            v@ == s@,
            texts(out@).push(cur@) == split_on(s@.take(i as int), c),
        decreases v.len() - i,
    {
        let ch = v[i];
        proof {
            assert(s@.take(i + 1).drop_last() =~= s@.take(i as int));
            assert(s@.take(i + 1).last() == ch);
        }
        let ghost before = texts(out@);
        let ghost piece = cur@;
        if ch == c {
            let ghost out0 = out@;
            out.push(cur);
            proof {
                assert(texts(out@) =~= before.push(piece));
            }
            cur = String::new();
        } else {
            cur.push(ch);
            proof {
                assert(before.push(piece).drop_last() =~= before);
            }
        }
        i = i + 1;
        proof {
            assert(texts(out@).push(cur@) =~= split_on(s@.take(i as int), c));
        }
    }
    let ghost before = texts(out@);
    let ghost piece = cur@;
    out.push(cur);
    proof {
        assert(texts(out@) =~= before.push(piece));
        assert(s@.take(s@.len() as int) =~= s@);
    }
    out
}

/// `s` without one trailing carriage return.
pub open spec fn strip_cr(s: Seq<char>) -> Seq<char> {
    if s.len() > 0 && s.last() == '\r' {
        s.drop_last()
    } else {
        s
    }
}

/// The lines of `s`: each ends at a line feed or at the end of the text, a
/// carriage return before the line feed belongs to neither line, and a final
/// line feed opens no further line.
pub open spec fn lines_of(s: Seq<char>) -> Seq<Seq<char>> {
    let p = split_on(s, '\n');
    let ended = Seq::new((p.len() - 1) as nat, |i: int| strip_cr(p[i]));
    if p.last().len() == 0 {
        ended
    } else {
        ended.push(p.last())
    }
}

pub fn linesOf(s: &str) -> (r: Vec<String>)
    ensures
        texts(r@) == lines_of(s@),
{
    let p = splitOn(s, '\n');
    let n: usize = p.len() - 1;
    let mut out: Vec<String> = Vec::new();
    let mut i: usize = 0;
    while i < n
        invariant
            i <= n,
            n == p.len() - 1,
            texts(out@) == Seq::new(i as nat, |j: int| strip_cr(p@[j]@)),
        decreases n - i,
    {
        let piece = p[i].as_str();
        let len: usize = piece.unicode_len();
        let ghost before = texts(out@);
        if len > 0 && piece.get_char(len - 1) == '\r' {
            let cut = String::from_str(piece.substring_char(0, len - 1));
            proof {
                assert(cut@ =~= strip_cr(piece@));
            }
            out.push(cut);
        } else {
            out.push(String::from_str(piece));
        }
        i = i + 1;
        proof {
            assert(texts(out@) =~= before.push(strip_cr(p@[i - 1]@)));
            assert(texts(out@) =~= Seq::new(i as nat, |j: int| strip_cr(p@[j]@)));
        }
    }
    let ghost before = texts(out@);
    let ghost pieces = texts(p@);
    if p[n].as_str().unicode_len() > 0 {
        out.push(p[n].clone());
    }
    proof {
        assert(before =~= Seq::new((pieces.len() - 1) as nat, |j: int| strip_cr(pieces[j])));
        assert(texts(out@) =~= lines_of(s@));
    }
    out
}

/// The texts `v` one after another, with `sep` between each two.
pub open spec fn joined(v: Seq<Seq<char>>, sep: Seq<char>) -> Seq<char>
    decreases v.len(),
{
    if v.len() == 0 {
        Seq::empty()
    } else if v.len() == 1 {
        v[0]
    } else {
        joined(v.drop_last(), sep) + sep + v.last()
    }
}

pub fn joinWith(v: &Vec<String>, sep: &str) -> (r: String)
    ensures
        r@ == joined(texts(v@), sep@),
{
    let mut out = String::new();
    let mut i: usize = 0;
    proof {
        assert(texts(v@).take(0) =~= Seq::empty());
    }
    while i < v.len()
        invariant
            i <= v.len(),
            out@ == joined(texts(v@).take(i as int), sep@),
        decreases v.len() - i,
    {
        if i > 0 {
            out.append(sep);
        }
        out.append(v[i].as_str());
        proof {
            let t = texts(v@).take(i + 1);
            assert(t.drop_last() =~= texts(v@).take(i as int));
            assert(t.last() == v@[i as int]@);
            if i == 0 {
                assert(out@ =~= v@[0]@);
            }
        }
        i = i + 1;
    }
    proof {
        assert(texts(v@).take(v@.len() as int) =~= texts(v@));
    }
    out
}

// ---- putting texts together ----

/// Two texts behind one another.
pub fn cat2(a: &str, b: &str) -> (r: String)
    ensures
        r@ == a@ + b@,
{
    let mut s = String::from_str(a);
    s.append(b);
    s
}

/// Three texts behind one another.
pub fn cat3(a: &str, b: &str, c: &str) -> (r: String)
    ensures
        r@ == a@ + b@ + c@,
{
    let mut s = cat2(a, b);
    s.append(c);
    s
}

/// Four texts behind one another.
pub fn cat4(a: &str, b: &str, c: &str, d: &str) -> (r: String)
    ensures
        r@ == a@ + b@ + c@ + d@,
{
    let mut s = cat3(a, b, c);
    s.append(d);
    s
}

/// Five texts behind one another.
pub fn cat5(a: &str, b: &str, c: &str, d: &str, e: &str) -> (r: String)
    ensures
        r@ == a@ + b@ + c@ + d@ + e@,
{
    let mut s = cat4(a, b, c, d);
    s.append(e);
    s
}

/// A text that is cut after `n` bytes at most, with an ellipsis where it is.
pub open spec fn brief(s: Seq<char>, n: int) -> Seq<char> {
    if byte_len(s) > n {
        cut_bytes(s, n) + "\u{2026}"@
    } else {
        s
    }
}

/// A text that is cut after `n` bytes at most, with an ellipsis where it is.
pub fn briefly(s: &str, n: usize) -> (r: String)
    ensures
        r@ == brief(s@, n as int),
{
    if bytesExceed(s, n) {
        cat2(cutBytes(s, n).as_str(), "\u{2026}")
    } else {
        String::from_str(s)
    }
}

// ---- laws ----

/// Whether there is only white space in `s`.
pub open spec fn all_white(s: Seq<char>) -> bool {
    forall|i: int| 0 <= i < s.len() ==> is_white(#[trigger] s[i])
}

proof fn lemma_trim_start(a: Seq<char>, m: Seq<char>)
    requires
        all_white(a),
        m.len() == 0 || !is_white(m[0]),
    ensures
        trim_start(a + m) == m,
    decreases a.len(),
{
    if a.len() > 0 {
        assert(is_white(a[0]));
        assert((a + m).skip(1) =~= a.skip(1) + m);
        assert forall|i: int| 0 <= i < a.skip(1).len() implies is_white(
            #[trigger] a.skip(1)[i],
        ) by {
            assert(is_white(a[i + 1]));
        }
        lemma_trim_start(a.skip(1), m);
    } else {
        assert(a + m =~= m);
    }
}

proof fn lemma_trim_end(m: Seq<char>, b: Seq<char>)
    requires
        all_white(b),
        m.len() == 0 || !is_white(m.last()),
    ensures
        trim_end(m + b) == m,
    decreases b.len(),
{
    if b.len() > 0 {
        assert(is_white(b[b.len() - 1]));
        assert((m + b).drop_last() =~= m + b.drop_last());
        assert forall|i: int| 0 <= i < b.drop_last().len() implies is_white(
            #[trigger] b.drop_last()[i],
        ) by {
            assert(is_white(b[i]));
        }
        lemma_trim_end(m, b.drop_last());
    } else {
        assert(m + b =~= m);
    }
}

/// Trimming takes the white space off both ends and leaves what stands between.
pub proof fn law_trimming_leaves_what_stands_between(a: Seq<char>, m: Seq<char>, b: Seq<char>)
    requires
        all_white(a),
        all_white(b),
        m.len() > 0,
        !is_white(m[0]),
        !is_white(m.last()),
    ensures
        trimmed(a + m + b) == m,
{
    assert(a + m + b =~= a + (m + b));
    lemma_trim_start(a, m + b);
    lemma_trim_end(m, b);
}

/// Nothing is left of a text that is white throughout.
pub proof fn law_white_text_is_trimmed_away(a: Seq<char>)
    requires
        all_white(a),
    ensures
        trimmed(a).len() == 0,
{
    assert(a + Seq::<char>::empty() =~= a);
    lemma_trim_start(a, Seq::empty());
}

proof fn lemma_trim_start_parts(s: Seq<char>) -> (k: int)
    ensures
        0 <= k <= s.len(),
        all_white(s.take(k)),
        trim_start(s) == s.skip(k),
        k < s.len() ==> !is_white(s[k]),
    decreases s.len(),
{
    if s.len() > 0 && is_white(s[0]) {
        let k = lemma_trim_start_parts(s.skip(1));
        assert(s.skip(1).skip(k) =~= s.skip(k + 1));
        assert forall|i: int| 0 <= i < s.take(k + 1).len() implies is_white(
            #[trigger] s.take(k + 1)[i],
        ) by {
            if i > 0 {
                assert(is_white(s.skip(1).take(k)[i - 1]));
            }
        }
        k + 1
    } else {
        assert(s.skip(0) =~= s);
        0
    }
}

proof fn lemma_trim_end_parts(s: Seq<char>) -> (k: int)
    ensures
        0 <= k <= s.len(),
        all_white(s.skip(k)),
        trim_end(s) == s.take(k),
        k > 0 ==> !is_white(s[k - 1]),
    decreases s.len(),
{
    if s.len() > 0 && is_white(s.last()) {
        let k = lemma_trim_end_parts(s.drop_last());
        assert(s.drop_last().take(k) =~= s.take(k));
        assert forall|i: int| 0 <= i < s.skip(k).len() implies is_white(
            #[trigger] s.skip(k)[i],
        ) by {
            if i < s.drop_last().skip(k).len() {
                assert(is_white(s.drop_last().skip(k)[i]));
            }
        }
        k
    } else {
        assert(s.take(s.len() as int) =~= s);
        s.len() as int
    }
}

/// A trimmed text stands in the text it was made from, with only white space before
/// and behind it, and neither begins nor ends with white space.
pub proof fn law_a_trimmed_text_stands_in_its_text(s: Seq<char>) -> (at: int)
    ensures
        0 <= at,
        at + trimmed(s).len() <= s.len(),
        all_white(s.take(at)),
        trimmed(s) == s.subrange(at, at + trimmed(s).len()),
        all_white(s.skip(at + trimmed(s).len())),
        trimmed(s).len() > 0 ==> !is_white(trimmed(s)[0]) && !is_white(trimmed(s).last()),
{
    let a = lemma_trim_start_parts(s);
    let t = s.skip(a);
    let k = lemma_trim_end_parts(t);
    assert(s.subrange(a, a + k) =~= t.take(k));
    assert(s.skip(a + k) =~= t.skip(k));
    if k > 0 {
        assert(trimmed(s)[0] == s[a]);
    }
    a
}

/// A search finds the first place where a text occurs, and fails only where it occurs
/// nowhere.
pub proof fn law_a_search_finds_the_first_place(s: Seq<char>, p: Seq<char>, i: int)
    requires
        0 <= i,
    ensures
        match find_from(s, p, i) {
            Some(k) => i <= k && k + p.len() <= s.len() && s.subrange(k, k + p.len()) == p && forall|
                j: int,
            |
                i <= j < k ==> #[trigger] s.subrange(j, j + p.len()) != p,
            None => forall|j: int|
                i <= j && j + p.len() <= s.len() ==> #[trigger] s.subrange(j, j + p.len()) != p,
        },
    decreases s.len() + 1 - i,
{
    if i <= s.len() && !occurs_at(s, p, i) {
        law_a_search_finds_the_first_place(s, p, i + 1);
        let f = find_from(s, p, i);
        if f is Some {
            assert forall|j: int| i <= j < f->0 implies #[trigger] s.subrange(j, j + p.len())
                != p by {}
        } else {
            assert forall|j: int| i <= j && j + p.len() <= s.len() implies #[trigger] s.subrange(
                j,
                j + p.len(),
            ) != p by {}
        }
    }
}

/// What stands behind a mark is found where the mark does not occur before.
pub proof fn lemma_found_behind(a: Seq<char>, p: Seq<char>, b: Seq<char>)
    requires
        p.len() > 0,
        forall|j: int| 0 <= j < a.len() ==> !#[trigger] occurs_at(a + p + b, p, j),
    ensures
        find_from(a + p + b, p, 0) == Some(a.len() as int),
        (a + p + b).take(a.len() as int) == a,
        (a + p + b).skip((a.len() + p.len()) as int) == b,
{
    let s = a + p + b;
    assert(s.subrange(a.len() as int, (a.len() + p.len()) as int) =~= p);
    assert(s.take(a.len() as int) =~= a);
    assert(s.skip((a.len() + p.len()) as int) =~= b);
    lemma_find_from(s, p, 0, a.len() as int);
}

/// A text that is cut is the longest beginning that takes no more than `n` bytes.
pub proof fn law_a_cut_text_is_the_longest_that_fits(s: Seq<char>, n: int, k: int)
    requires
        0 <= n,
        0 <= k <= s.len(),
    ensures
        cut_bytes(s, n).len() <= s.len(),
        cut_bytes(s, n) == s.take(cut_bytes(s, n).len() as int),
        byte_len(cut_bytes(s, n)) <= n,
        byte_len(s.take(k)) <= n ==> k <= cut_bytes(s, n).len(),
    decreases s.len(),
{
    assert(s.take(s.len() as int) =~= s);
    if s.len() > 0 && byte_len(s) > n {
        let t = s.drop_last();
        if k < s.len() {
            law_a_cut_text_is_the_longest_that_fits(t, n, k);
            assert(t.take(k) =~= s.take(k));
        } else {
            law_a_cut_text_is_the_longest_that_fits(t, n, 0);
        }
        let m = cut_bytes(t, n).len() as int;
        assert(t.take(m) =~= s.take(m));
    } else {
        lemma_byte_len_prefix(s, k);
    }
}

/// The bytes of a text are those of its characters, which take one to four each.
pub proof fn law_bytes_add_up(a: Seq<char>, b: Seq<char>)
    ensures
        byte_len(a + b) == byte_len(a) + byte_len(b),
        a.len() <= byte_len(a) <= 4 * a.len(),
    decreases b.len(), a.len(),
{
    if b.len() > 0 {
        assert((a + b).drop_last() =~= a + b.drop_last());
        law_bytes_add_up(a, b.drop_last());
    } else {
        assert(a + b =~= a);
        if a.len() > 0 {
            law_bytes_add_up(a.drop_last(), Seq::empty());
        }
    }
}

/// What is split and joined again is what it was, and no piece holds the separator.
pub proof fn law_joining_undoes_splitting(s: Seq<char>, c: char)
    ensures
        joined(split_on(s, c), seq![c]) == s,
        forall|i: int| 0 <= i < split_on(s, c).len() ==> !#[trigger] split_on(s, c)[i].contains(c),
    decreases s.len(),
{
    let p = split_on(s, c);
    if s.len() > 0 {
        let q = split_on(s.drop_last(), c);
        law_joining_undoes_splitting(s.drop_last(), c);
        lemma_split_nonempty(s.drop_last(), c);
        if s.last() == c {
            assert(p.drop_last() =~= q);
            assert(p.last().len() == 0);
            assert(joined(q, seq![c]) + seq![c] + Seq::<char>::empty() =~= s);
            assert forall|i: int| 0 <= i < p.len() implies !#[trigger] p[i].contains(c) by {
                if i < q.len() {
                    assert(p[i] == q[i]);
                }
            }
        } else {
            assert(p.drop_last() =~= q.drop_last());
            assert(p.last() == q.last().push(s.last()));
            if q.len() == 1 {
                assert(joined(p, seq![c]) =~= s);
            } else {
                let head = joined(q.drop_last(), seq![c]) + seq![c];
                assert(joined(q, seq![c]) == head + q.last());
                assert(joined(p, seq![c]) == head + q.last().push(s.last()));
                assert(head + q.last().push(s.last()) =~= (head + q.last()).push(s.last()));
                assert(s.drop_last().push(s.last()) =~= s);
            }
            assert forall|i: int| 0 <= i < p.len() implies !#[trigger] p[i].contains(c) by {
                if i < q.len() - 1 {
                    assert(p[i] == q[i]);
                    assert(!q[i].contains(c));
                } else {
                    assert(!q[q.len() - 1].contains(c));
                    let l = q.last();
                    if p[i].contains(c) {
                        let k = choose|k: int| 0 <= k < p[i].len() && p[i][k] == c;
                        assert(l[k] == c);
                    }
                }
            }
        }
    } else {
        assert(joined(p, seq![c]) =~= s);
    }
}

/// A padded text is as wide as asked, or wider where it was so before, and begins with
/// the text; only blanks are added. A centred one has as many on the left as on the
/// right, or one fewer.
pub proof fn law_padding_only_adds_blanks(s: Seq<char>, n: int, i: int)
    requires
        0 <= n,
    ensures
        pad_right(s, n).len() >= n,
        pad_right(s, n).len() >= s.len(),
        s.len() >= n ==> pad_right(s, n) == s && center_text(s, n) == s,
        has_prefix(pad_right(s, n), s),
        s.len() <= i < pad_right(s, n).len() ==> pad_right(s, n)[i] == ' ',
        s.len() < n ==> center_text(s, n).len() == n,
        ({
            let k = (center_text(s, n).len() - s.len()) / 2;
            &&& center_text(s, n).subrange(k, k + s.len()) == s
            &&& 0 <= i < center_text(s, n).len() && !(k <= i < k + s.len()) ==> center_text(
                s,
                n,
            )[i] == ' '
        }),
{
    let k = (center_text(s, n).len() - s.len()) / 2;
    assert(center_text(s, n).subrange(k, k + s.len()) =~= s);
    assert(pad_right(s, n).take(s.len() as int) =~= s);
}

/// A text that takes no more than `n` bytes is shown whole, and a longer one by how it
/// begins, with an ellipsis behind.
pub proof fn law_long_texts_are_shortened(s: Seq<char>, n: int)
    requires
        0 <= n,
    ensures
        byte_len(s) <= n ==> brief(s, n) == s,
        byte_len(s) > n ==> brief(s, n).len() > 0 && brief(s, n).last() == '\u{2026}' && has_prefix(
            s,
            brief(s, n).drop_last(),
        ) && byte_len(brief(s, n).drop_last()) <= n,
{
    reveal_strlit("\u{2026}");
    if byte_len(s) > n {
        law_a_cut_text_is_the_longest_that_fits(s, n, 0);
        let c = cut_bytes(s, n);
        assert(brief(s, n).drop_last() =~= c);
        assert(s.take(c.len() as int) =~= c);
    }
}

/// No line holds a line feed, and the lines of a text without carriage returns make it up
/// again, with a line feed at its end where it has one.
pub proof fn law_lines_make_up_the_text(s: Seq<char>, i: int)
    requires
        !s.contains('\r'),
        0 <= i < lines_of(s).len(),
    ensures
        !lines_of(s)[i].contains('\n'),
        s.last() != '\n' ==> joined(lines_of(s), seq!['\n']) == s,
        s.last() == '\n' ==> joined(lines_of(s), seq!['\n']) + seq!['\n'] == s,
{
    let p = split_on(s, '\n');
    law_joining_undoes_splitting(s, '\n');
    lemma_split_nonempty(s, '\n');
    lemma_pieces_hold_no(s, '\n', '\r');
    assert forall|k: int| 0 <= k < p.len() implies #[trigger] strip_cr(p[k]) == p[k] by {
        if p[k].len() > 0 && p[k].last() == '\r' {
            assert(p[k].contains(p[k][p[k].len() - 1]));
        }
    }
    assert(!p[i].contains('\n'));
    lemma_last_piece(s, '\n');
    if p.last().len() == 0 {
        assert(lines_of(s) =~= p.drop_last());
        if p.len() > 1 {
            assert(joined(p, seq!['\n']) == joined(p.drop_last(), seq!['\n']) + seq!['\n']
                + p.last());
            assert(joined(p, seq!['\n']) =~= joined(p.drop_last(), seq!['\n']) + seq!['\n']);
        }
    } else {
        assert(lines_of(s) =~= p);
    }
}

proof fn lemma_last_piece(s: Seq<char>, c: char)
    ensures
        s.len() > 0 ==> (split_on(s, c).last().len() == 0 <==> s.last() == c),
    decreases s.len(),
{
    if s.len() > 0 {
        lemma_split_nonempty(s.drop_last(), c);
    }
}

proof fn lemma_pieces_hold_no(s: Seq<char>, c: char, x: char)
    requires
        !s.contains(x),
    ensures
        forall|k: int| 0 <= k < split_on(s, c).len() ==> !#[trigger] split_on(s, c)[k].contains(x),
    decreases s.len(),
{
    if s.len() > 0 {
        let t = s.drop_last();
        assert(!t.contains(x)) by {
            if t.contains(x) {
                let i = choose|i: int| 0 <= i < t.len() && t[i] == x;
                assert(s[i] == x);
            }
        }
        lemma_pieces_hold_no(t, c, x);
        lemma_split_nonempty(t, c);
        let (p, q) = (split_on(s, c), split_on(t, c));
        assert(s.contains(s[s.len() - 1]));
        assert forall|k: int| 0 <= k < p.len() implies !#[trigger] p[k].contains(x) by {
            if k < q.len() - 1 {
                assert(p[k] == q[k]);
                assert(!q[k].contains(x));
            } else if k < q.len() {
                assert(!q[k].contains(x));
                if p[k].contains(x) {
                    let j = choose|j: int| 0 <= j < p[k].len() && p[k][j] == x;
                    if j < q[k].len() {
                        assert(q[k][j] == x);
                    }
                }
            }
        }
    } else {
        assert forall|k: int| 0 <= k < split_on(s, c).len() implies !#[trigger] split_on(
            s,
            c,
        )[k].contains(x) by {}
    }
}

} // verus!
