//! Character-level string predicates used throughout the crate, each with a
//! specification over the `Seq<char>` view of a string.
use vstd::prelude::*;
use vstd::string::*;

verus! {

/// `p` is a prefix of `s`.
pub open spec fn seq_starts_with(s: Seq<char>, p: Seq<char>) -> bool {
    p.len() <= s.len() && s.subrange(0, p.len() as int) == p
}

/// `p` is a suffix of `s`.
pub open spec fn seq_ends_with(s: Seq<char>, p: Seq<char>) -> bool {
    p.len() <= s.len() && s.subrange(s.len() - p.len(), s.len() as int) == p
}

/// `p` occurs in `s` starting at position `i`.
pub open spec fn seq_occurs_at(s: Seq<char>, p: Seq<char>, i: int) -> bool {
    0 <= i && i + p.len() <= s.len() && s.subrange(i, i + p.len()) == p
}

/// `p` occurs somewhere in `s`.
pub open spec fn seq_contains(s: Seq<char>, p: Seq<char>) -> bool {
    exists|i: int| seq_occurs_at(s, p, i)
}

/// Whether `p` occurs in `s` at char position `i`.
pub fn occurs_at(s: &str, p: &str, i: usize) -> (r: bool)
    ensures
        r == seq_occurs_at(s@, p@, i as int),
{
    let n = s.unicode_len();
    let m = p.unicode_len();
    if i > n || m > n - i {
        return false;
    }
    let mut j: usize = 0;
    while j < m
        invariant
            n == s@.len(),
            m == p@.len(),
            i + m <= n,
            j <= m,
            forall|k: int| 0 <= k < j ==> s@[i + k] == p@[k],
        decreases m - j,
    {
        if s.get_char(i + j) != p.get_char(j) {
            assert(s@.subrange(i as int, i + m)[j as int] != p@[j as int]);
            return false;
        }
        j = j + 1;
    }
    assert(s@.subrange(i as int, i + m) =~= p@);
    true
}

/// Equality of the character sequences of two strings.
pub fn str_eq(a: &str, b: &str) -> (r: bool)
    ensures
        r == (a@ == b@),
{
    if a.unicode_len() != b.unicode_len() {
        return false;
    }
    let r = occurs_at(a, b, 0);
    proof {
        if r {
            assert(a@ =~= a@.subrange(0, b@.len() as int));
        } else if a@ == b@ {
            assert(a@.subrange(0, b@.len() as int) =~= b@);
        }
    }
    r
}

/// `s` starts with `p`.
pub fn starts_with(s: &str, p: &str) -> (r: bool)
    ensures
        r == seq_starts_with(s@, p@),
{
    occurs_at(s, p, 0)
}

/// `s` ends with `p`.
pub fn ends_with(s: &str, p: &str) -> (r: bool)
    ensures
        r == seq_ends_with(s@, p@),
{
    let n = s.unicode_len();
    let m = p.unicode_len();
    if m > n {
        return false;
    }
    occurs_at(s, p, n - m)
}

/// `p` occurs in `s`.
pub fn contains(s: &str, p: &str) -> (r: bool)
    ensures
        r == seq_contains(s@, p@),
{
    let n = s.unicode_len();
    let m = p.unicode_len();
    if m > n {
        assert(forall|i: int| !seq_occurs_at(s@, p@, i));
        return false;
    }
    if m == 0 {
        assert(s@.subrange(0, 0) =~= p@);
        assert(seq_occurs_at(s@, p@, 0));
        return true;
    }
    let mut i: usize = 0;
    while i <= n - m
        invariant
            n == s@.len(),
            m == p@.len(),
            0 < m <= n,
            forall|k: int| 0 <= k < i ==> !seq_occurs_at(s@, p@, k),
        decreases n - m + 1 - i,
    {
        if occurs_at(s, p, i) {
            return true;
        }
        i = i + 1;
    }
    assert forall|k: int| !seq_occurs_at(s@, p@, k) by {
        if 0 <= k && k + p@.len() <= s@.len() {
            assert(k < i);
        }
    }
    false
}

/// The pieces of `s` between occurrences of `sep` (one more piece than
/// there are separators; pieces may be empty).
pub open spec fn split_seq(s: Seq<char>, sep: char) -> Seq<Seq<char>>
    decreases s.len(),
{
    if s.len() == 0 {
        seq![Seq::empty()]
    } else {
        let rest = split_seq(s.drop_last(), sep);
        if s.last() == sep {
            rest.push(Seq::empty())
        } else {
            rest.update(rest.len() - 1, rest.last().push(s.last()))
        }
    }
}

/// Splitting always gives at least one piece.
pub proof fn lemma_split_len(s: Seq<char>, sep: char)
    ensures
        split_seq(s, sep).len() >= 1,
    decreases s.len(),
{
    if s.len() > 0 {
        lemma_split_len(s.drop_last(), sep);
    }
}

/// A text without the separator is a single piece.
pub proof fn lemma_split_single(s: Seq<char>, sep: char)
    requires
        !s.contains(sep),
    ensures
        split_seq(s, sep) == seq![s],
    decreases s.len(),
{
    if s.len() > 0 {
        assert(!s.drop_last().contains(sep)) by {
            if s.drop_last().contains(sep) {
                let k = choose|k: int| 0 <= k < s.drop_last().len() && s.drop_last()[k] == sep;
                assert(s[k] == sep);
            }
        }
        lemma_split_single(s.drop_last(), sep);
        assert(s.last() != sep) by {
            if s.last() == sep {
                assert(s[s.len() - 1] == sep);
            }
        }
        assert(s.drop_last().push(s.last()) =~= s);
        assert(seq![s.drop_last()].update(0, s.drop_last().push(s.last())) =~= seq![s]);
    } else {
        assert(s =~= Seq::<char>::empty());
    }
}

/// Splitting `a`, the separator and `b` gives the pieces of `a` followed by
/// the pieces of `b`.
pub proof fn lemma_split_concat(a: Seq<char>, b: Seq<char>, sep: char)
    ensures
        split_seq(a + seq![sep] + b, sep) == split_seq(a, sep) + split_seq(b, sep),
    decreases b.len(),
{
    let s = a + seq![sep] + b;
    if b.len() == 0 {
        assert(s.drop_last() =~= a);
        assert(b =~= Seq::<char>::empty());
        assert(split_seq(a, sep).push(Seq::empty()) =~= split_seq(a, sep) + seq![Seq::<char>::empty()]);
    } else {
        assert(s.drop_last() =~= a + seq![sep] + b.drop_last());
        lemma_split_concat(a, b.drop_last(), sep);
        lemma_split_len(b.drop_last(), sep);
        let sa = split_seq(a, sep);
        let sb = split_seq(b.drop_last(), sep);
        assert(s.last() == b.last());
        if b.last() == sep {
            assert((sa + sb).push(Seq::empty()) =~= sa + sb.push(Seq::empty()));
        } else {
            assert((sa + sb).update((sa + sb).len() - 1, (sa + sb).last().push(b.last())) =~= sa
                + sb.update(sb.len() - 1, sb.last().push(b.last())));
        }
    }
}

/// No piece of a split holds the separator.
pub proof fn lemma_split_pieces(s: Seq<char>, sep: char)
    ensures
        forall|k: int|
            0 <= k < split_seq(s, sep).len() ==> !(#[trigger] split_seq(s, sep)[k]).contains(sep),
    decreases s.len(),
{
    if s.len() > 0 {
        lemma_split_pieces(s.drop_last(), sep);
        lemma_split_len(s.drop_last(), sep);
        let rest = split_seq(s.drop_last(), sep);
        if s.last() != sep {
            let last = rest.last().push(s.last());
            assert(!last.contains(sep)) by {
                assert(!rest[rest.len() - 1].contains(sep));
                if last.contains(sep) {
                    let k = choose|k: int| 0 <= k < last.len() && last[k] == sep;
                    if k < last.len() - 1 {
                        assert(rest.last()[k] == sep);
                    }
                }
            }
            let r = rest.update(rest.len() - 1, last);
            assert forall|k: int| 0 <= k < r.len() implies !(#[trigger] r[k]).contains(sep) by {
                if k < rest.len() - 1 {
                    assert(r[k] == rest[k]);
                }
            }
        } else {
            let r = rest.push(Seq::<char>::empty());
            assert forall|k: int| 0 <= k < r.len() implies !(#[trigger] r[k]).contains(sep) by {
                if k < rest.len() {
                    assert(r[k] == rest[k]);
                }
            }
        }
    }
}

/// The pieces of `s` between occurrences of `sep`.
pub fn split_on(s: &str, sep: char) -> (r: Vec<String>)
    ensures
        r@.map_values(|x: String| x@) == split_seq(s@, sep),
{
    let n = s.unicode_len();
    let mut out: Vec<String> = Vec::new();
    let mut start: usize = 0;
    let mut i: usize = 0;
    assert(s@.take(0) =~= Seq::<char>::empty());
    assert(out@.map_values(|x: String| x@) + seq![s@.subrange(0, 0)] =~= split_seq(s@.take(0), sep));
    while i < n
        invariant
            n == s@.len(),
            start <= i <= n,
            out@.map_values(|x: String| x@) + seq![s@.subrange(start as int, i as int)]
                == split_seq(s@.take(i as int), sep),
        decreases n - i,
    {
        let c = s.get_char(i);
        let ghost before = out@.map_values(|x: String| x@);
        assert(s@.take(i + 1).drop_last() =~= s@.take(i as int));
        assert(s@.take(i + 1).last() == c);
        if c == sep {
            let ghost rest = split_seq(s@.take(i as int), sep);
            assert(split_seq(s@.take(i + 1), sep) == rest.push(Seq::<char>::empty()));
            out.push(s.substring_char(start, i).to_string());
            assert(out@.map_values(|x: String| x@) =~= before.push(s@.subrange(start as int, i as int)));
            start = i + 1;
            i = i + 1;
            assert(s@.subrange(start as int, i as int) =~= Seq::<char>::empty());
            assert(out@.map_values(|x: String| x@) + seq![s@.subrange(start as int, i as int)] =~= split_seq(
                s@.take(i as int),
                sep,
            ));
        } else {
            let ghost rest = split_seq(s@.take(i as int), sep);
            assert(rest == before + seq![s@.subrange(start as int, i as int)]);
            assert(rest.last() == s@.subrange(start as int, i as int));
            i = i + 1;
            assert(s@.subrange(start as int, i - 1).push(c) =~= s@.subrange(start as int, i as int));
            assert(rest.update(rest.len() - 1, rest.last().push(c)) =~= before + seq![
                s@.subrange(start as int, i as int),
            ]);
            assert(out@.map_values(|x: String| x@) + seq![s@.subrange(start as int, i as int)] =~= split_seq(
                s@.take(i as int),
                sep,
            ));
        }
    }
    out.push(s.substring_char(start, n).to_string());
    assert(s@.take(n as int) =~= s@);
    assert(out@.map_values(|x: String| x@) =~= split_seq(s@, sep));
    out
}

/// White space in the sense of Unicode's `White_Space` property, which is
/// what `char::is_whitespace` tests.
pub open spec fn is_white_space(c: char) -> bool {
    let x = c as u32;
    ||| 0x09 <= x <= 0x0d
    ||| x == 0x20
    ||| x == 0x85
    ||| x == 0xa0
    ||| x == 0x1680
    ||| 0x2000 <= x <= 0x200a
    ||| x == 0x2028
    ||| x == 0x2029
    ||| x == 0x202f
    ||| x == 0x205f
    ||| x == 0x3000
}

/// Whether `c` is white space.
pub fn is_whitespace(c: char) -> (r: bool)
    ensures
        r == is_white_space(c),
{
    let x = c as u32;
    (0x09 <= x && x <= 0x0d) || x == 0x20 || x == 0x85 || x == 0xa0 || x == 0x1680 || (0x2000
        <= x && x <= 0x200a) || x == 0x2028 || x == 0x2029 || x == 0x202f || x == 0x205f || x
        == 0x3000
}

/// The maximal runs of non-white-space characters of `s`, in order.
pub open spec fn tokens(s: Seq<char>) -> Seq<Seq<char>>
    decreases s.len(),
{
    if s.len() == 0 {
        Seq::empty()
    } else {
        let rest = tokens(s.drop_last());
        let c = s.last();
        if is_white_space(c) {
            rest
        } else if s.len() >= 2 && !is_white_space(s[s.len() - 2]) {
            rest.update(rest.len() - 1, rest.last().push(c))
        } else {
            rest.push(seq![c])
        }
    }
}

/// The tokens of `s`, separated by white space.
pub fn split_whitespace(s: &str) -> (r: Vec<String>)
    ensures
        r@.map_values(|x: String| x@) == tokens(s@),
{
    let n = s.unicode_len();
    let mut out: Vec<String> = Vec::new();
    let mut start: usize = 0;
    let mut in_token = false;
    let mut i: usize = 0;
    assert(s@.take(0) =~= Seq::<char>::empty());
    assert(out@.map_values(|x: String| x@) =~= tokens(s@.take(0)));
    while i < n
        invariant
            n == s@.len(),
            start <= i <= n,
            in_token ==> start < i && !is_white_space(s@[i - 1]),
            !in_token ==> i == 0 || is_white_space(s@[i - 1]),
            tokens(s@.take(i as int)) == out@.map_values(|x: String| x@) + (if in_token {
                seq![s@.subrange(start as int, i as int)]
            } else {
                Seq::empty()
            }),
        decreases n - i,
    {
        let c = s.get_char(i);
        let ghost before = out@.map_values(|x: String| x@);
        let ghost prefix = s@.take(i + 1);
        assert(prefix.drop_last() =~= s@.take(i as int));
        assert(prefix.last() == c);
        if is_whitespace(c) {
            if in_token {
                out.push(s.substring_char(start, i).to_string());
                assert(out@.map_values(|x: String| x@) =~= before.push(
                    s@.subrange(start as int, i as int),
                ));
                in_token = false;
            }
            i = i + 1;
            assert(tokens(s@.take(i as int)) =~= out@.map_values(|x: String| x@));
        } else {
            if in_token {
                assert(prefix[prefix.len() - 2] == s@[i - 1]);
                i = i + 1;
                assert(s@.subrange(start as int, i - 1).push(c) =~= s@.subrange(
                    start as int,
                    i as int,
                ));
                assert(tokens(s@.take(i as int)) =~= out@.map_values(|x: String| x@) + seq![
                    s@.subrange(start as int, i as int),
                ]);
            } else {
                if i > 0 {
                    assert(prefix[prefix.len() - 2] == s@[i - 1]);
                }
                start = i;
                in_token = true;
                i = i + 1;
                assert(s@.subrange(start as int, i as int) =~= seq![c]);
                assert(tokens(s@.take(i as int)) =~= out@.map_values(|x: String| x@) + seq![
                    s@.subrange(start as int, i as int),
                ]);
            }
        }
    }
    assert(s@.take(n as int) =~= s@);
    if in_token {
        let ghost before = out@.map_values(|x: String| x@);
        out.push(s.substring_char(start, n).to_string());
        assert(out@.map_values(|x: String| x@) =~= before.push(s@.subrange(start as int, n as int)));
    }
    out
}

/// What std's `Debug` formatting gives a string: the string quoted, with
/// its special characters escaped.
pub uninterp spec fn debug_str_text(s: Seq<char>) -> Seq<char>;

/// Formats a string with std's `Debug` formatting (`format!("{:?}", s)`).
/// The contract only names the result, a function of the string alone.
#[verifier::external_body]
pub fn debug_str(s: &str) -> (r: String)
    ensures
        r@ == debug_str_text(s@),
{
    format!("{:?}", s)
}

/// The `Debug` text of each string, separated by `, `.
pub open spec fn debug_items(items: Seq<Seq<char>>) -> Seq<char>
    decreases items.len(),
{
    if items.len() == 0 {
        Seq::empty()
    } else if items.len() == 1 {
        debug_str_text(items[0])
    } else {
        debug_items(items.drop_last()) + ", "@ + debug_str_text(items.last())
    }
}

/// What `Debug` formatting gives a list of strings: `["a", "b"]`.
pub open spec fn debug_list_text(items: Seq<Seq<char>>) -> Seq<char> {
    "["@ + debug_items(items) + "]"@
}

/// What `Debug` formatting gives an optional string: `None` or `Some("a")`.
pub open spec fn debug_option_text(o: Option<Seq<char>>) -> Seq<char> {
    match o {
        None => "None"@,
        Some(s) => "Some("@ + debug_str_text(s) + ")"@,
    }
}

/// Items already formatted, separated by `, `.
pub open spec fn comma_joined(parts: Seq<Seq<char>>) -> Seq<char>
    decreases parts.len(),
{
    if parts.len() == 0 {
        Seq::empty()
    } else if parts.len() == 1 {
        parts[0]
    } else {
        comma_joined(parts.drop_last()) + ", "@ + parts.last()
    }
}

/// Encloses already formatted items in brackets, separated by `, `, as
/// `Debug` formatting of a list does.
pub fn bracket_list(parts: &Vec<String>) -> (r: String)
    ensures
        r@ == "["@ + comma_joined(parts@.map_values(|x: String| x@)) + "]"@,
{
    let ghost all = parts@.map_values(|x: String| x@);
    let n = parts.len();
    let mut out = String::from_str("[");
    let mut i: usize = 0;
    proof {
        reveal_strlit("[");
        assert(all.take(0) =~= Seq::<Seq<char>>::empty());
        assert(out@ =~= "["@ + comma_joined(all.take(0)));
    }
    while i < n
        invariant
            n == parts@.len(),
            all == parts@.map_values(|x: String| x@),
            i <= n,
            out@ == "["@ + comma_joined(all.take(i as int)),
        decreases n - i,
    {
        assert(all.take(i + 1).drop_last() =~= all.take(i as int));
        assert(all.take(i + 1).last() == parts@[i as int]@);
        if i == 0 {
            out = out.concat(parts[i].as_str());
            assert(out@ =~= "["@ + comma_joined(all.take(i + 1)));
        } else {
            out = out.concat(", ").concat(parts[i].as_str());
            assert(out@ =~= "["@ + comma_joined(all.take(i + 1)));
        }
        i = i + 1;
    }
    assert(all.take(n as int) =~= all);
    out.concat("]")
}

proof fn lemma_debug_items(items: Seq<Seq<char>>)
    ensures
        debug_items(items) == comma_joined(items.map_values(|s: Seq<char>| debug_str_text(s))),
    decreases items.len(),
{
    let d = items.map_values(|s: Seq<char>| debug_str_text(s));
    if items.len() > 1 {
        lemma_debug_items(items.drop_last());
        assert(d.drop_last() =~= items.drop_last().map_values(|s: Seq<char>| debug_str_text(s)));
    }
}

/// Formats a list of strings as `Debug` formatting does.
pub fn debug_list(items: &Vec<String>) -> (r: String)
    ensures
        r@ == debug_list_text(items@.map_values(|x: String| x@)),
{
    let ghost all = items@.map_values(|x: String| x@);
    let n = items.len();
    let mut parts: Vec<String> = Vec::new();
    let mut i: usize = 0;
    while i < n
        invariant
            n == items@.len(),
            all == items@.map_values(|x: String| x@),
            i <= n,
            parts@.map_values(|x: String| x@) == all.take(i as int).map_values(
                |s: Seq<char>| debug_str_text(s),
            ),
        decreases n - i,
    {
        let ghost before = parts@.map_values(|x: String| x@);
        let item = debug_str(items[i].as_str());
        assert(item@ == debug_str_text(all[i as int]));
        parts.push(item);
        assert(parts@.map_values(|x: String| x@) =~= before.push(item@));
        assert(all.take(i + 1) =~= all.take(i as int).push(all[i as int]));
        assert(parts@.map_values(|x: String| x@) =~= all.take(i + 1).map_values(
            |s: Seq<char>| debug_str_text(s),
        ));
        i = i + 1;
    }
    proof {
        assert(all.take(n as int) =~= all);
        lemma_debug_items(all);
    }
    bracket_list(&parts)
}

/// Formats an optional string as `Debug` formatting does.
pub fn debug_option(o: &Option<String>) -> (r: String)
    ensures
        r@ == debug_option_text(
            match o {
                Some(s) => Some(s@),
                None => None,
            },
        ),
{
    match o {
        None => String::from_str("None"),
        Some(s) => String::from_str("Some(").concat(debug_str(s.as_str()).as_str()).concat(")"),
    }
}

/// The decimal digits of `n`, most significant first.
pub open spec fn decimal(n: nat) -> Seq<char>
    decreases n,
{
    if n < 10 {
        "0123456789"@.subrange(n as int, n as int + 1)
    } else {
        decimal(n / 10) + "0123456789"@.subrange((n % 10) as int, (n % 10) as int + 1)
    }
}

/// `n` written in decimal.
pub fn decimal_string(n: usize) -> (r: String)
    ensures
        r@ == decimal(n as nat),
    decreases n,
{
    let digits = "0123456789";
    proof {
        reveal_strlit("0123456789");
    }
    let d = n % 10;
    let digit = digits.substring_char(d, d + 1);
    if n < 10 {
        String::from_str(digit)
    } else {
        let high = decimal_string(n / 10);
        high.concat(digit)
    }
}

} // verus!
