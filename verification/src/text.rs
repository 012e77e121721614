//! Text helpers: the order on names, whitespace trimming, excerpts, and
//! decimal rendering, each stated over the characters of the text.
use vstd::prelude::*;
use vstd::string::*;
use vstd::utf8::*;

verus! {

/// Lexicographic order on character sequences, comparing code points. This
/// is the order of `String` in Rust, since UTF-8 preserves code-point order.
pub open spec fn seq_lt(a: Seq<char>, b: Seq<char>) -> bool
    decreases a.len(),
{
    if a.len() == 0 {
        b.len() > 0
    } else if b.len() == 0 {
        false
    } else if a[0] != b[0] {
        (a[0] as u32) < (b[0] as u32)
    } else {
        seq_lt(a.drop_first(), b.drop_first())
    }
}

/// No sequence precedes itself.
pub proof fn lemma_seq_lt_irreflexive(a: Seq<char>)
    ensures
        !seq_lt(a, a),
    decreases a.len(),
{
    if a.len() > 0 {
        lemma_seq_lt_irreflexive(a.drop_first());
    }
}

/// Of two distinct sequences exactly one precedes the other.
pub proof fn lemma_seq_lt_total(a: Seq<char>, b: Seq<char>)
    ensures
        a != b ==> (seq_lt(a, b) || seq_lt(b, a)),
        !(seq_lt(a, b) && seq_lt(b, a)),
    decreases a.len(),
{
    if a.len() == 0 && b.len() == 0 {
        assert(a =~= b);
    } else if a.len() > 0 && b.len() > 0 && a[0] == b[0] {
        lemma_seq_lt_total(a.drop_first(), b.drop_first());
        if a.drop_first() == b.drop_first() {
            assert(a =~= seq![a[0]] + a.drop_first());
            assert(b =~= seq![b[0]] + b.drop_first());
        }
    } else if a.len() > 0 && b.len() > 0 {
        char_u32_cast_injective(a[0], b[0]);
    }
}

/// Distinct characters have distinct code points.
proof fn char_u32_cast_injective(x: char, y: char)
    ensures
        x != y ==> (x as u32) != (y as u32),
{
    broadcast use char_u32_cast;

    if x != y && (x as u32) == (y as u32) {
        char_u32_cast(x, x as u32);
        char_u32_cast(y, y as u32);
    }
}

/// The order is transitive.
pub proof fn lemma_seq_lt_transitive(a: Seq<char>, b: Seq<char>, c: Seq<char>)
    requires
        seq_lt(a, b),
        seq_lt(b, c),
    ensures
        seq_lt(a, c),
    decreases a.len(),
{
    if a.len() > 0 && b.len() > 0 && c.len() > 0 && a[0] == b[0] && b[0] == c[0] {
        lemma_seq_lt_transitive(a.drop_first(), b.drop_first(), c.drop_first());
    }
}

/// `a` comes strictly before `b` in the order of `String`.
pub fn str_lt(a: &str, b: &str) -> (r: bool)
    ensures
        r == seq_lt(a@, b@),
{
    let la = a.unicode_len();
    let lb = b.unicode_len();
    let mut i: usize = 0;
    assert(a@.skip(0) =~= a@);
    assert(b@.skip(0) =~= b@);
    loop
        invariant
            la == a@.len(),
            lb == b@.len(),
            i <= la,
            i <= lb,
            seq_lt(a@, b@) == seq_lt(a@.skip(i as int), b@.skip(i as int)),
        decreases la - i,
    {
        if i == la || i == lb {
            return i < lb;
        }
        let ca = a.get_char(i);
        let cb = b.get_char(i);
        if ca != cb {
            return (ca as u32) < (cb as u32);
        }
        assert(a@.skip(i as int).drop_first() =~= a@.skip(i + 1));
        assert(b@.skip(i as int).drop_first() =~= b@.skip(i + 1));
        i = i + 1;
    }
}

/// Whether a character has the Unicode `White_Space` property (what
/// `char::is_whitespace` reports): tab, line feed, vertical tab, form feed,
/// carriage return, space, next line, no-break space, ogham space mark, the
/// spaces U+2000 to U+200A, line and paragraph separators, narrow no-break
/// space, medium mathematical space and ideographic space.
pub open spec fn unicode_white_space(c: char) -> bool {
    let v = c as u32;
    ||| 0x09 <= v <= 0x0D
    ||| v == 0x20
    ||| v == 0x85
    ||| v == 0xA0
    ||| v == 0x1680
    ||| 0x2000 <= v <= 0x200A
    ||| v == 0x2028
    ||| v == 0x2029
    ||| v == 0x202F
    ||| v == 0x205F
    ||| v == 0x3000
}

/// Whether a character is whitespace in the sense of `char::is_whitespace`.
fn is_white_space(c: char) -> (r: bool)
    ensures
        r == unicode_white_space(c),
{
    let v = c as u32;
    (0x09 <= v && v <= 0x0D) || v == 0x20 || v == 0x85 || v == 0xA0 || v == 0x1680 || (0x2000 <= v
        && v <= 0x200A) || v == 0x2028 || v == 0x2029 || v == 0x202F || v == 0x205F || v == 0x3000
}

/// The text without its leading whitespace.
pub open spec fn trim_start_spec(s: Seq<char>) -> Seq<char>
    decreases s.len(),
{
    if s.len() > 0 && unicode_white_space(s[0]) {
        trim_start_spec(s.drop_first())
    } else {
        s
    }
}

/// The text without its trailing whitespace.
pub open spec fn trim_end_spec(s: Seq<char>) -> Seq<char>
    decreases s.len(),
{
    if s.len() > 0 && unicode_white_space(s.last()) {
        trim_end_spec(s.drop_last())
    } else {
        s
    }
}

/// The text without leading and trailing whitespace (what `str::trim` returns).
pub open spec fn trim_spec(s: Seq<char>) -> Seq<char> {
    trim_end_spec(trim_start_spec(s))
}

/// The text holds nothing but whitespace.
pub open spec fn is_blank_spec(s: Seq<char>) -> bool {
    trim_spec(s).len() == 0
}

/// Leading and trailing whitespace removed.
pub fn trim(s: &str) -> (r: &str)
    ensures
        r@ == trim_spec(s@),
{
    let n = s.unicode_len();
    let mut i: usize = 0;
    assert(s@.skip(0) =~= s@);
    loop
        invariant
            n == s@.len(),
            i <= n,
            trim_start_spec(s@) == trim_start_spec(s@.skip(i as int)),
        ensures
            i <= n,
            trim_start_spec(s@) == trim_start_spec(s@.skip(i as int)),
            i == n || !unicode_white_space(s@[i as int]),
        decreases n - i,
    {
        if i == n {
            break;
        }
        if !is_white_space(s.get_char(i)) {
            break;
        }
        assert(s@.skip(i as int).drop_first() =~= s@.skip(i + 1));
        i = i + 1;
    }
    let t = s.substring_char(i, n);
    assert(t@ =~= s@.skip(i as int));
    assert(i < n ==> t@[0] == s@[i as int]);
    assert(trim_start_spec(s@) == t@);
    let mut j: usize = n - i;
    assert(t@.take(j as int) =~= t@);
    loop
        invariant
            t@.len() == n - i,
            j <= n - i,
            trim_end_spec(t@) == trim_end_spec(t@.take(j as int)),
        ensures
            j <= n - i,
            trim_end_spec(t@) == trim_end_spec(t@.take(j as int)),
            j == 0 || !unicode_white_space(t@[j - 1]),
        decreases j,
    {
        if j == 0 {
            break;
        }
        if !is_white_space(t.get_char(j - 1)) {
            break;
        }
        assert(t@.take(j as int).drop_last() =~= t@.take(j - 1));
        j = j - 1;
    }
    let r = t.substring_char(0, j);
    assert(r@ =~= t@.take(j as int));
    assert(j > 0 ==> r@.last() == t@[j - 1]);
    r
}

/// Whether the text holds nothing but whitespace.
pub fn is_blank(s: &str) -> (r: bool)
    ensures
        r == is_blank_spec(s@),
{
    trim(s).unicode_len() == 0
}

/// Number of bytes of a character in UTF-8.
pub open spec fn utf8_width(c: char) -> int {
    encode_scalar(c as u32).len() as int
}

/// The longest prefix of a text whose UTF-8 encoding fits in `budget` bytes.
pub open spec fn prefix_within(s: Seq<char>, budget: int) -> Seq<char>
    decreases s.len(),
{
    if s.len() == 0 || utf8_width(s[0]) > budget {
        Seq::empty()
    } else {
        seq![s[0]] + prefix_within(s.drop_first(), budget - utf8_width(s[0]))
    }
}

/// The text cut to at most its first 200 bytes, at the last character
/// boundary at or before byte 200.
pub open spec fn spec_first_200(s: Seq<char>) -> Seq<char> {
    prefix_within(s, 200)
}

/// `prefix_within` is the longest prefix whose encoding fits the budget.
pub proof fn lemma_prefix_within(s: Seq<char>, budget: int)
    requires
        budget >= 0,
    ensures
        prefix_within(s, budget).len() <= s.len(),
        prefix_within(s, budget) == s.take(prefix_within(s, budget).len() as int),
        encode_utf8(prefix_within(s, budget)).len() <= budget,
        prefix_within(s, budget).len() < s.len() ==> encode_utf8(
            s.take(prefix_within(s, budget).len() as int + 1),
        ).len() > budget,
    decreases s.len(),
{
    let p = prefix_within(s, budget);
    if s.len() == 0 {
        assert(s.take(0) =~= p);
    } else if utf8_width(s[0]) > budget {
        assert(s.take(0) =~= p);
        assert(s.take(1).drop_first() =~= Seq::<char>::empty());
        assert(s.take(1)[0] == s[0]);
    } else {
        let t = s.drop_first();
        let b = budget - utf8_width(s[0]);
        lemma_prefix_within(t, b);
        let q = prefix_within(t, b);
        assert(p == seq![s[0]] + q);
        assert(p =~= s.take(p.len() as int));
        assert(p[0] == s[0]);
        assert(p.drop_first() =~= q);
        if p.len() < s.len() {
            let w = s.take(p.len() as int + 1);
            assert(w[0] == s[0]);
            assert(w.drop_first() =~= t.take(q.len() as int + 1));
        }
    }
}

/// Number of bytes of a character in UTF-8, computed from its code point.
fn char_width(c: char) -> (w: usize)
    ensures
        w == utf8_width(c),
        1 <= w <= 4,
{
    broadcast use char_is_scalar;

    let v = c as u32;
    if v <= 0x7F {
        1
    } else if v <= 0x7FF {
        2
    } else if v <= 0xFFFF {
        3
    } else {
        4
    }
}

/// The text cut to at most its first 200 bytes, for error messages. The cut
/// falls at the last character boundary at or before byte 200, so no
/// character is split.
pub fn first_200(s: &str) -> (r: &str)
    ensures
        r@ == spec_first_200(s@),
        r@ == s@.take(r@.len() as int),
        encode_utf8(r@).len() <= 200,
        r@.len() < s@.len() ==> encode_utf8(s@.take(r@.len() as int + 1)).len() > 200,
{
    proof {
        lemma_prefix_within(s@, 200);
    }
    let n = s.unicode_len();
    let mut i: usize = 0;
    let mut used: usize = 0;
    assert(s@.skip(0) =~= s@);
    assert(s@.take(0) + prefix_within(s@.skip(0), 200) =~= prefix_within(s@, 200));
    loop
        invariant
            n == s@.len(),
            i <= n,
            used <= 200,
            prefix_within(s@, 200) == s@.take(i as int) + prefix_within(
                s@.skip(i as int),
                200 - used,
            ),
        ensures
            i <= n,
            prefix_within(s@, 200) == s@.take(i as int),
        decreases n - i,
    {
        if i == n {
            assert(s@.skip(i as int) =~= Seq::<char>::empty());
            assert(s@.take(i as int) + Seq::<char>::empty() =~= s@.take(i as int));
            break;
        }
        let c = s.get_char(i);
        let w = char_width(c);
        let ghost rest = s@.skip(i as int);
        assert(rest[0] == c);
        if w > 200 - used {
            assert(s@.take(i as int) + Seq::<char>::empty() =~= s@.take(i as int));
            break;
        }
        assert(rest.drop_first() =~= s@.skip(i + 1));
        assert(s@.take(i + 1) =~= s@.take(i as int) + seq![c]);
        assert(s@.take(i as int) + (seq![c] + prefix_within(s@.skip(i + 1), 200 - used - w))
            =~= s@.take(i + 1) + prefix_within(s@.skip(i + 1), 200 - (used + w)));
        used = used + w;
        i = i + 1;
    }
    let r = s.substring_char(0, i);
    assert(r@ =~= s@.take(i as int));
    r
}

/// What `format!("{:?}", s)` renders for a text: the text quoted and escaped.
pub uninterp spec fn debug_quoted(s: Seq<char>) -> Seq<char>;

/// The `Debug` rendering of a `str` (a quoted, escaped string literal). The
/// contract ties the result to the text alone and leaves the escaping rules unsaid.
#[verifier::external_body]
pub(crate) fn debug_quote(s: &str) -> (r: String)
    ensures
        r@ == debug_quoted(s@),
{
    format!("{:?}", s)
}

/// The character of a decimal digit.
pub open spec fn digit_char(d: nat) -> char {
    (d + 48) as char
}

/// Decimal rendering of a natural number, without leading zeros.
pub open spec fn decimal(n: nat) -> Seq<char>
    decreases n,
{
    if n < 10 {
        seq![digit_char(n)]
    } else {
        decimal(n / 10).push(digit_char(n % 10))
    }
}

fn digit_str(d: u32) -> (r: &'static str)
    requires
        d < 10,
    ensures
        r@ == seq![digit_char(d as nat)],
{
    proof {
        reveal_strlit("0");
        reveal_strlit("1");
        reveal_strlit("2");
        reveal_strlit("3");
        reveal_strlit("4");
        reveal_strlit("5");
        reveal_strlit("6");
        reveal_strlit("7");
        reveal_strlit("8");
        reveal_strlit("9");
    }
    match d {
        0 => "0",
        1 => "1",
        2 => "2",
        3 => "3",
        4 => "4",
        5 => "5",
        6 => "6",
        7 => "7",
        8 => "8",
        _ => "9",
    }
}

/// Decimal rendering of a number, as `Display` prints it.
pub fn decimal_string(n: u32) -> (r: String)
    ensures
        r@ == decimal(n as nat),
    decreases n,
{
    if n < 10 {
        digit_str(n).to_owned()
    } else {
        let mut s = decimal_string(n / 10);
        s.append(digit_str(n % 10));
        s
    }
}

} // verus!
