use vstd::prelude::*;

verus! {

broadcast use vstd::string::group_string_axioms;

/// Unicode `White_Space`, the property that `char::is_whitespace` and
/// `str::trim` go by.
pub open spec fn is_whitespace(c: char) -> bool {
    let u = c as u32;
    ||| 0x09 <= u <= 0x0d
    ||| u == 0x20
    ||| u == 0x85
    ||| u == 0xa0
    ||| u == 0x1680
    ||| 0x2000 <= u <= 0x200a
    ||| u == 0x2028
    ||| u == 0x2029
    ||| u == 0x202f
    ||| u == 0x205f
    ||| u == 0x3000
}

/// `s` without its leading whitespace.
pub open spec fn trim_start(s: Seq<char>) -> Seq<char>
    decreases s.len(),
{
    if s.len() > 0 && is_whitespace(s[0]) {
        trim_start(s.drop_first())
    } else {
        s
    }
}

/// `s` without its trailing whitespace.
pub open spec fn trim_end(s: Seq<char>) -> Seq<char>
    decreases s.len(),
{
    if s.len() > 0 && is_whitespace(s.last()) {
        trim_end(s.drop_last())
    } else {
        s
    }
}

/// `s` without leading and trailing whitespace, as `str::trim` gives it.
pub open spec fn trim(s: Seq<char>) -> Seq<char> {
    trim_end(trim_start(s))
}

/// `s` without any trailing occurrence of `c`, as `str::trim_end_matches(c)` gives it.
pub open spec fn trim_end_char(s: Seq<char>, c: char) -> Seq<char>
    decreases s.len(),
{
    if s.len() > 0 && s.last() == c {
        trim_end_char(s.drop_last(), c)
    } else {
        s
    }
}

/// The text of an optional string.
pub open spec fn opt_text(o: Option<String>) -> Option<Seq<char>> {
    match o {
        Some(s) => Some(s@),
        None => None,
    }
}

/// The text of an optional string slice.
pub open spec fn opt_str_text(o: Option<&str>) -> Option<Seq<char>> {
    match o {
        Some(s) => Some(s@),
        None => None,
    }
}

/// The characters of `s`, in order.
pub fn chars_of(s: &str) -> (v: Vec<char>)
    ensures
        v@ == s@,
{
    let mut v: Vec<char> = Vec::new();
    for c in it: s.chars()
        invariant
            it.seq() == s@,
            v@ == it.seq().take(it.index()),
    {
        v.push(c);
    }
    v
}

/// Whether `c` is Unicode whitespace, as `char::is_whitespace` says.
pub fn char_is_whitespace(c: char) -> (r: bool)
    ensures
        r == is_whitespace(c),
{
    let u = c as u32;
    (0x09 <= u && u <= 0x0d) || u == 0x20 || u == 0x85 || u == 0xa0 || u == 0x1680 || (0x2000
        <= u && u <= 0x200a) || u == 0x2028 || u == 0x2029 || u == 0x202f || u == 0x205f || u
        == 0x3000
}

proof fn lemma_trim_start_skip(s: Seq<char>, i: int)
    requires
        0 <= i <= s.len(),
        forall|j: int| 0 <= j < i ==> is_whitespace(#[trigger] s[j]),
    ensures
        trim_start(s) == trim_start(s.subrange(i, s.len() as int)),
    decreases i,
{
    if i > 0 {
        assert(s.drop_first().subrange(i - 1, s.drop_first().len() as int) =~= s.subrange(
            i,
            s.len() as int,
        ));
        lemma_trim_start_skip(s.drop_first(), i - 1);
    } else {
        assert(s.subrange(0, s.len() as int) =~= s);
    }
}

proof fn lemma_trim_end_cut(s: Seq<char>, j: int)
    requires
        0 <= j <= s.len(),
        forall|k: int| j <= k < s.len() ==> is_whitespace(#[trigger] s[k]),
    ensures
        trim_end(s) == trim_end(s.subrange(0, j)),
    decreases s.len() - j,
{
    if j < s.len() {
        assert(s.drop_last().subrange(0, j) =~= s.subrange(0, j));
        lemma_trim_end_cut(s.drop_last(), j);
    } else {
        assert(s.subrange(0, j) =~= s);
    }
}

proof fn lemma_trim_end_char_cut(s: Seq<char>, c: char, j: int)
    requires
        0 <= j <= s.len(),
        forall|k: int| j <= k < s.len() ==> #[trigger] s[k] == c,
    ensures
        trim_end_char(s, c) == trim_end_char(s.subrange(0, j), c),
    decreases s.len() - j,
{
    if j < s.len() {
        assert(s.drop_last().subrange(0, j) =~= s.subrange(0, j));
        lemma_trim_end_char_cut(s.drop_last(), c, j);
    } else {
        assert(s.subrange(0, j) =~= s);
    }
}

/// `s` with leading and trailing whitespace removed (`str::trim`).
pub fn trim_str(s: &str) -> (r: String)
    ensures
        r@ == trim(s@),
{
    let v = chars_of(s);
    let n = v.len();
    let mut i: usize = 0;
    while i < n && char_is_whitespace(v[i])
        invariant
            n == v@.len(),
            v@ == s@,
            i <= n,
            forall|j: int| 0 <= j < i ==> is_whitespace(#[trigger] v@[j]),
        decreases n - i,
    {
        i = i + 1;
    }
    proof {
        lemma_trim_start_skip(s@, i as int);
        let rest = s@.subrange(i as int, n as int);
        if rest.len() > 0 {
            assert(rest[0] == v@[i as int]);
        }
        assert(trim_start(s@) == rest);
    }
    let mut j: usize = n;
    while j > i && char_is_whitespace(v[j - 1])
        invariant
            n == v@.len(),
            v@ == s@,
            i <= j <= n,
            forall|k: int| j <= k < n ==> is_whitespace(#[trigger] v@[k]),
        decreases j - i,
    {
        j = j - 1;
    }
    proof {
        let rest = s@.subrange(i as int, n as int);
        assert forall|k: int| j - i <= k < rest.len() implies is_whitespace(#[trigger] rest[k]) by {
            assert(rest[k] == v@[k + i]);
        }
        lemma_trim_end_cut(rest, j - i);
        let mid = rest.subrange(0, j - i);
        assert(mid =~= s@.subrange(i as int, j as int));
        if mid.len() > 0 {
            assert(mid.last() == v@[j - 1]);
        }
        assert(trim_end(mid) == mid);
    }
    s.substring_char(i, j).to_owned()
}

/// `s` with every trailing `c` removed (`str::trim_end_matches(c)`).
pub fn trim_end_matches_char(s: &str, c: char) -> (r: String)
    ensures
        r@ == trim_end_char(s@, c),
{
    let v = chars_of(s);
    let n = v.len();
    let mut j: usize = n;
    while j > 0 && v[j - 1] == c
        invariant
            n == v@.len(),
            v@ == s@,
            j <= n,
            forall|k: int| j <= k < n ==> #[trigger] v@[k] == c,
        decreases j,
    {
        j = j - 1;
    }
    proof {
        lemma_trim_end_char_cut(s@, c, j as int);
        let mid = s@.subrange(0, j as int);
        if mid.len() > 0 {
            assert(mid.last() == v@[j - 1]);
        }
        assert(trim_end_char(mid, c) == mid);
    }
    s.substring_char(0, j).to_owned()
}


/// Whether `a` and `b` hold the same characters.
pub fn str_eq(a: &str, b: &str) -> (r: bool)
    ensures
        r == (a@ == b@),
{
    let va = chars_of(a);
    let vb = chars_of(b);
    if va.len() != vb.len() {
        return false;
    }
    let mut i: usize = 0;
    while i < va.len()
        invariant
            va@ == a@,
            vb@ == b@,
            va@.len() == vb@.len(),
            i <= va@.len(),
            forall|k: int| 0 <= k < i ==> va@[k] == vb@[k],
        decreases va@.len() - i,
    {
        if va[i] != vb[i] {
            return false;
        }
        i = i + 1;
    }
    assert(a@ =~= b@);
    true
}

/// Whether `prefix` begins `s` (`str::starts_with`).
pub fn starts_with(s: &str, prefix: &str) -> (r: bool)
    ensures
        r == prefix@.is_prefix_of(s@),
{
    let vs = chars_of(s);
    let vp = chars_of(prefix);
    if vp.len() > vs.len() {
        return false;
    }
    let mut i: usize = 0;
    while i < vp.len()
        invariant
            vs@ == s@,
            vp@ == prefix@,
            vp@.len() <= vs@.len(),
            i <= vp@.len(),
            forall|k: int| 0 <= k < i ==> vs@[k] == vp@[k],
        decreases vp@.len() - i,
    {
        if vs[i] != vp[i] {
            assert(s@.subrange(0, prefix@.len() as int)[i as int] != prefix@[i as int]);
            return false;
        }
        i = i + 1;
    }
    assert(s@.subrange(0, prefix@.len() as int) =~= prefix@);
    true
}

/// The rest of `s` after `prefix`, when `prefix` begins `s` (`str::strip_prefix`).
pub fn strip_prefix(s: &str, prefix: &str) -> (r: Option<String>)
    ensures
        r matches Some(rest) ==> prefix@.is_prefix_of(s@) && rest@ == s@.skip(prefix@.len() as int),
        r is None ==> !prefix@.is_prefix_of(s@),
{
    if starts_with(s, prefix) {
        let n = s.unicode_len();
        let k = prefix.unicode_len();
        Some(s.substring_char(k, n).to_owned())
    } else {
        None
    }
}

/// The concatenation of `a` and `b`.
pub fn concat_str(a: &str, b: &str) -> (r: String)
    ensures
        r@ == a@ + b@,
{
    let mut r = a.to_owned();
    r.append(b);
    r
}


/// `s` with each leftmost, non-overlapping occurrence of `from` replaced by `to`,
/// scanning from the start, as `str::replace` does; an empty `from` occurs
/// before every character and at the end.
pub open spec fn replace_all(s: Seq<char>, from: Seq<char>, to: Seq<char>) -> Seq<char>
    decreases s.len(),
{
    if from.len() == 0 {
        if s.len() == 0 {
            to
        } else {
            to + seq![s[0]] + replace_all(s.drop_first(), from, to)
        }
    } else if s.len() < from.len() {
        s
    } else if from.is_prefix_of(s) {
        to + replace_all(s.skip(from.len() as int), from, to)
    } else {
        seq![s[0]] + replace_all(s.drop_first(), from, to)
    }
}

/// Whether `p` occurs in `v` at position `i`.
fn occurs_at(v: &Vec<char>, p: &Vec<char>, i: usize) -> (r: bool)
    requires
        i <= v@.len(),
    ensures
        r == (i + p@.len() <= v@.len() && p@ =~= v@.subrange(i as int, i + p@.len())),
{
    if p.len() > v.len() - i {
        return false;
    }
    let mut k: usize = 0;
    while k < p.len()
        invariant
            i + p@.len() <= v@.len(),
            v@.len() <= usize::MAX,
            k <= p@.len(),
            forall|m: int| 0 <= m < k ==> p@[m] == v@[i + m],
        decreases p@.len() - k,
    {
        if p[k] != v[i + k] {
            assert(v@.subrange(i as int, i + p@.len())[k as int] != p@[k as int]);
            return false;
        }
        k = k + 1;
    }
    assert(p@ =~= v@.subrange(i as int, i + p@.len()));
    true
}

/// `s` with `to` before every character and at the end (`str::replace` with an empty pattern).
fn replace_empty_pattern(s: &str, to: &str) -> (r: String)
    ensures
        r@ == replace_all(s@, Seq::empty(), to@),
{
    let n = s.unicode_len();
    let mut out = String::new();
    let mut i: usize = 0;
    assert(s@.skip(0) =~= s@);
    while i < n
        invariant
            n == s@.len(),
            i <= n,
            replace_all(s@, Seq::empty(), to@) == out@ + replace_all(s@.skip(i as int), Seq::empty(), to@),
        decreases n - i,
    {
        let ghost rest = s@.skip(i as int);
        assert(rest.drop_first() =~= s@.skip(i + 1));
        let ghost before = out@;
        out.append(to);
        let piece = s.substring_char(i, i + 1);
        assert(piece@ =~= seq![rest[0]]);
        out.append(piece);
        assert(out@ =~= before + to@ + seq![rest[0]]);
        i = i + 1;
    }
    assert(s@.skip(n as int) =~= Seq::<char>::empty());
    out.append(to);
    out
}

/// `s` with every occurrence of `from` replaced by `to` (`str::replace`).
pub fn replace_str(s: &str, from: &str, to: &str) -> (r: String)
    ensures
        r@ == replace_all(s@, from@, to@),
{
    if from.is_empty() {
        assert(from@ =~= Seq::<char>::empty());
        replace_empty_pattern(s, to)
    } else {
        replace_nonempty_pattern(s, from, to)
    }
}

/// `s` with every occurrence of the non-empty `from` replaced by `to`.
fn replace_nonempty_pattern(s: &str, from: &str, to: &str) -> (r: String)
    requires
        from@.len() > 0,
    ensures
        r@ == replace_all(s@, from@, to@),
{
    let v = chars_of(s);
    let p = chars_of(from);
    let n = v.len();
    let mut out = String::new();
    let mut seg: usize = 0;
    let mut i: usize = 0;
    proof {
        assert(s@.skip(0) =~= s@);
        assert(s@.subrange(0, 0) =~= Seq::<char>::empty());
    }
    while i < n
        invariant
            v@ == s@,
            p@ == from@,
            from@.len() > 0,
            n == s@.len(),
            seg <= i <= n,
            replace_all(s@, from@, to@) == out@ + s@.subrange(seg as int, i as int) + replace_all(
                s@.skip(i as int),
                from@,
                to@,
            ),
        decreases n - i,
    {
        let ghost rest = s@.skip(i as int);
        if occurs_at(&v, &p, i) {
            proof {
                assert(from@ =~= rest.subrange(0, from@.len() as int));
                assert(rest.skip(from@.len() as int) =~= s@.skip(i + from@.len()));
            }
            let ghost before = out@ + s@.subrange(seg as int, i as int);
            out.append(s.substring_char(seg, i));
            out.append(to);
            i = i + p.len();
            seg = i;
            proof {
                assert(s@.subrange(seg as int, i as int) =~= Seq::<char>::empty());
                assert(out@ =~= before + to@);
            }
        } else {
            proof {
                assert(rest.drop_first() =~= s@.skip(i + 1));
                if rest.len() >= from@.len() {
                    assert(!from@.is_prefix_of(rest)) by {
                        if from@.is_prefix_of(rest) {
                            assert(rest.subrange(0, from@.len() as int) =~= v@.subrange(
                                i as int,
                                i + from@.len(),
                            ));
                        }
                    }
                } else {
                    assert(rest =~= seq![rest[0]] + rest.drop_first());
                }
                assert(s@.subrange(seg as int, i + 1) =~= s@.subrange(seg as int, i as int) + seq![
                    rest[0],
                ]);
            }
            i = i + 1;
        }
    }
    proof {
        assert(s@.skip(n as int) =~= Seq::<char>::empty());
    }
    out.append(s.substring_char(seg, n));
    out
}

/// The character of the decimal digit `d`.
pub open spec fn digit_char(d: nat) -> char {
    (48 + d) as char
}

/// The decimal numeral of `n`, without leading zeros.
pub open spec fn decimal(n: nat) -> Seq<char>
    decreases n,
{
    if n < 10 {
        seq![digit_char(n)]
    } else {
        decimal(n / 10) + seq![digit_char(n % 10)]
    }
}

/// The decimal numeral of `n`, with a leading `-` when negative, as `Display` writes integers.
pub open spec fn signed_decimal(n: int) -> Seq<char> {
    if n < 0 {
        seq!['-'] + decimal((-n) as nat)
    } else {
        decimal(n as nat)
    }
}

fn append_decimal(out: &mut String, n: u64)
    ensures
        final(out)@ == old(out)@ + decimal(n as nat),
    decreases n,
{
    let ghost start = out@;
    if n >= 10 {
        append_decimal(out, n / 10);
    }
    let d = (n % 10) as usize;
    let digits = "0123456789";
    proof {
        reveal_strlit("0123456789");
        assert(digits@[d as int] == digit_char(d as nat));
    }
    let piece = digits.substring_char(d, d + 1);
    assert(piece@ =~= seq![digit_char(d as nat)]);
    out.append(piece);
    proof {
        if n >= 10 {
            assert(out@ =~= start + (decimal((n / 10) as nat) + seq![digit_char((n % 10) as nat)]));
        } else {
            assert(out@ =~= start + seq![digit_char(n as nat)]);
        }
    }
}

/// The decimal text of `n` (`n.to_string()`).
pub fn decimal_i64(n: i64) -> (r: String)
    ensures
        r@ == signed_decimal(n as int),
{
    let mut out = String::new();
    if n < 0 {
        out.append("-");
        proof {
            reveal_strlit("-");
        }
        let m: u64 = (-(n as i128)) as u64;
        append_decimal(&mut out, m);
        assert(out@ =~= seq!['-'] + decimal((-n) as nat));
    } else {
        append_decimal(&mut out, n as u64);
        assert(out@ =~= decimal(n as nat));
    }
    out
}

/// Whether `c` is an ASCII decimal digit.
pub open spec fn is_digit(c: char) -> bool {
    48 <= (c as u32) <= 57
}

/// The value of the ASCII digits `s`, read in base ten.
pub open spec fn digits_value(s: Seq<char>) -> int
    decreases s.len(),
{
    if s.len() == 0 {
        0
    } else {
        digits_value(s.drop_last()) * 10 + ((s.last() as u32) - 48)
    }
}

/// Whether every character of `s` is an ASCII digit.
pub open spec fn all_digits(s: Seq<char>) -> bool {
    forall|i: int| 0 <= i < s.len() ==> is_digit(#[trigger] s[i])
}

/// What `str::parse::<i32>` gives for `s`: an optional `+` or `-`, then at
/// least one ASCII digit and nothing else, with a value that fits in `i32`.
pub open spec fn parse_i32(s: Seq<char>) -> Option<i32> {
    if s.len() == 0 {
        None
    } else {
        let signed = s[0] == '-' || s[0] == '+';
        let digits = if signed {
            s.drop_first()
        } else {
            s
        };
        if digits.len() == 0 || !all_digits(digits) {
            None
        } else {
            let v = if s[0] == '-' {
                -digits_value(digits)
            } else {
                digits_value(digits)
            };
            if i32::MIN <= v <= i32::MAX {
                Some(v as i32)
            } else {
                None
            }
        }
    }
}

proof fn lemma_digits_value_grows(s: Seq<char>, i: int)
    requires
        all_digits(s),
        0 <= i <= s.len(),
    ensures
        0 <= digits_value(s.subrange(0, i)) <= digits_value(s),
    decreases s.len(),
{
    if s.len() > 0 {
        assert(all_digits(s.drop_last())) by {
            assert forall|k: int| 0 <= k < s.drop_last().len() implies is_digit(
                #[trigger] s.drop_last()[k],
            ) by {
                assert(s.drop_last()[k] == s[k]);
            }
        }
        assert(is_digit(s[s.len() - 1]));
        if i < s.len() {
            assert(s.drop_last().subrange(0, i) =~= s.subrange(0, i));
            lemma_digits_value_grows(s.drop_last(), i);
        } else {
            assert(s.subrange(0, i) =~= s);
            lemma_digits_value_grows(s.drop_last(), 0);
            assert(s.drop_last().subrange(0, 0) =~= Seq::<char>::empty());
        }
    } else {
        assert(s.subrange(0, i) =~= s);
    }
}

/// `str::parse::<i32>` on `s`, with `None` for every input that it refuses.
pub fn parse_i32_str(s: &str) -> (r: Option<i32>)
    ensures
        r == parse_i32(s@),
{
    let v = chars_of(s);
    let n = v.len();
    if n == 0 {
        return None;
    }
    let negative = v[0] == '-';
    let start: usize = if v[0] == '-' || v[0] == '+' {
        1
    } else {
        0
    };
    let ghost digits = if start == 1 {
        s@.drop_first()
    } else {
        s@
    };
    assert(digits =~= s@.subrange(start as int, n as int));
    if start == n {
        return None;
    }
    let limit: i64 = 2147483648;
    let mut acc: i64 = 0;
    let mut i: usize = start;
    assert(digits.subrange(0, 0) =~= Seq::<char>::empty());
    while i < n
        invariant
            v@ == s@,
            n == s@.len(),
            start <= i <= n,
            digits =~= s@.subrange(start as int, n as int),
            forall|k: int| 0 <= k < i - start ==> is_digit(#[trigger] digits[k]),
            acc == digits_value(digits.subrange(0, i - start)),
            limit == 2147483648,
            0 <= acc <= limit,
            n > 0,
            start == 1 <==> (s@[0] == '-' || s@[0] == '+'),
            start == 0 || start == 1,
            negative == (s@[0] == '-'),
        decreases n - i,
    {
        let c = v[i];
        let code = c as u32;
        if code < 48 || code > 57 {
            assert(!is_digit(digits[i - start]));
            assert(!all_digits(digits));
            return None;
        }
        let next = acc * 10 + (code - 48) as i64;
        proof {
            let pre = digits.subrange(0, i + 1 - start);
            assert(pre.drop_last() =~= digits.subrange(0, i - start));
            assert(pre.last() == c);
        }
        if next > limit {
            proof {
                assert(digits_value(digits.subrange(0, i + 1 - start)) == next);
                if all_digits(digits) {
                    lemma_digits_value_grows(digits, i + 1 - start);
                    assert(digits_value(digits) > limit);
                }
                if start == 1 {
                    assert(s@.drop_first() =~= digits);
                } else {
                    assert(s@ =~= digits);
                }
                assert(parse_i32(s@) is None);
            }
            return None;
        }
        acc = next;
        i = i + 1;
    }
    assert(digits.subrange(0, n - start) =~= digits);
    assert(all_digits(digits));
    if start == 1 {
        assert(s@.drop_first() =~= digits);
    } else {
        assert(s@ =~= digits);
    }
    if negative {
        Some((-acc) as i32)
    } else if acc <= 2147483647 {
        Some(acc as i32)
    } else {
        None
    }
}


proof fn lemma_trim_start_shape(s: Seq<char>)
    ensures
        trim_start(s).len() == 0 || !is_whitespace(trim_start(s)[0]),
    decreases s.len(),
{
    if s.len() > 0 && is_whitespace(s[0]) {
        lemma_trim_start_shape(s.drop_first());
    }
}

proof fn lemma_trim_end_shape(s: Seq<char>)
    ensures
        trim_end(s).len() <= s.len(),
        trim_end(s) =~= s.subrange(0, trim_end(s).len() as int),
        trim_end(s).len() == 0 || !is_whitespace(trim_end(s).last()),
    decreases s.len(),
{
    if s.len() > 0 && is_whitespace(s.last()) {
        lemma_trim_end_shape(s.drop_last());
        assert(s.drop_last().subrange(0, trim_end(s).len() as int) =~= s.subrange(
            0,
            trim_end(s).len() as int,
        ));
    } else {
        assert(s.subrange(0, s.len() as int) =~= s);
    }
}

/// Trimming twice trims no more than trimming once.
pub proof fn lemma_trim_idempotent(s: Seq<char>)
    ensures
        trim(trim(s)) == trim(s),
{
    let a = trim_start(s);
    let b = trim_end(a);
    lemma_trim_start_shape(s);
    lemma_trim_end_shape(a);
    if b.len() > 0 {
        assert(b[0] == a[0]);
    }
    assert(trim_start(b) == b);
    assert(trim_end(b) == b);
}

/// Whether `pat` occurs nowhere in `s`.
pub open spec fn occurs_nowhere(s: Seq<char>, pat: Seq<char>) -> bool {
    forall|i: int| 0 <= i <= s.len() ==> !pat.is_prefix_of(#[trigger] s.skip(i))
}

/// Replacing a pattern that occurs nowhere changes nothing.
pub proof fn lemma_replace_absent(s: Seq<char>, from: Seq<char>, to: Seq<char>)
    requires
        occurs_nowhere(s, from),
    ensures
        replace_all(s, from, to) == s,
    decreases s.len(),
{
    if from.len() == 0 {
        assert(from.is_prefix_of(s.skip(0))) by {
            assert(s.skip(0).subrange(0, 0) =~= from);
        }
    } else if s.len() >= from.len() {
        assert(s.skip(0) =~= s);
        let rest = s.drop_first();
        assert forall|i: int| 0 <= i <= rest.len() implies !from.is_prefix_of(#[trigger] rest.skip(i)) by {
            assert(rest.skip(i) =~= s.skip(i + 1));
        }
        lemma_replace_absent(rest, from, to);
        assert(s =~= seq![s[0]] + rest);
    }
}

} // verus!
