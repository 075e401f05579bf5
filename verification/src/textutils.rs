//! Verified text helpers for the wire protocol: whitespace trimming, prefix
//! tests, splitting on separators, whitespace tokenization, decimal
//! rendering of integers, and the serialized message form.

use vstd::prelude::*;

verus! {

/// The whitespace characters that frames are trimmed of.
pub open spec fn is_space(c: char) -> bool {
    c == ' ' || c == '\t' || c == '\n' || c == '\r'
}

/// `s` with leading whitespace removed.
pub open spec fn spec_trim_start(s: Seq<char>) -> Seq<char>
    decreases s.len(),
{
    if s.len() > 0 && is_space(s[0]) {
        spec_trim_start(s.drop_first())
    } else {
        s
    }
}

/// `s` with trailing whitespace removed.
pub open spec fn spec_trim_end(s: Seq<char>) -> Seq<char>
    decreases s.len(),
{
    if s.len() > 0 && is_space(s.last()) {
        spec_trim_end(s.drop_last())
    } else {
        s
    }
}

/// `s` with leading and trailing whitespace removed.
pub open spec fn spec_trim(s: Seq<char>) -> Seq<char> {
    spec_trim_end(spec_trim_start(s))
}

proof fn lemma_trim_start_subrange(s: Seq<char>, i: int)
    requires
        0 <= i <= s.len(),
        forall|j: int| 0 <= j < i ==> is_space(#[trigger] s[j]),
        i < s.len() ==> !is_space(s[i]),
    ensures
        spec_trim_start(s) == s.subrange(i, s.len() as int),
    decreases i,
{
    if i == 0 {
        assert(s.subrange(0, s.len() as int) =~= s);
    } else {
        let t = s.drop_first();
        assert(forall|j: int| 0 <= j < i - 1 ==> is_space(#[trigger] t[j]));
        lemma_trim_start_subrange(t, i - 1);
        assert(t.subrange(i - 1, t.len() as int) =~= s.subrange(i, s.len() as int));
    }
}

proof fn lemma_trim_end_subrange(s: Seq<char>, i: int)
    requires
        0 <= i <= s.len(),
        forall|j: int| i <= j < s.len() ==> is_space(#[trigger] s[j]),
        i > 0 ==> !is_space(s[i - 1]),
    ensures
        spec_trim_end(s) == s.subrange(0, i),
    decreases s.len() - i,
{
    if i == s.len() {
        assert(s.subrange(0, s.len() as int) =~= s);
    } else {
        let t = s.drop_last();
        assert(forall|j: int| i <= j < t.len() ==> is_space(#[trigger] t[j]));
        lemma_trim_end_subrange(t, i);
        assert(t.subrange(0, i) =~= s.subrange(0, i));
    }
}

/// Decides whether `c` is one of the whitespace characters.
pub fn is_space_char(c: char) -> (r: bool)
    ensures
        r == is_space(c),
{
    c == ' ' || c == '\t' || c == '\n' || c == '\r'
}

/// Removes leading and trailing whitespace from `s`.
pub fn trim(s: &str) -> (r: &str)
    ensures
        r@ == spec_trim(s@),
{
    let n = s.unicode_len();
    let mut a: usize = 0;
    while a < n && is_space_char(s.get_char(a))
        invariant
            0 <= a <= n,
            n == s@.len(),
            forall|j: int| 0 <= j < a ==> is_space(#[trigger] s@[j]),
        decreases n - a,
    {
        a = a + 1;
    }
    proof {
        lemma_trim_start_subrange(s@, a as int);
    }
    let ghost t = s@.subrange(a as int, s@.len() as int);
    let mut b: usize = n;
    while b > a && is_space_char(s.get_char(b - 1))
        invariant
            a <= b <= n,
            n == s@.len(),
            t == s@.subrange(a as int, s@.len() as int),
            forall|j: int| b <= j < n ==> is_space(#[trigger] s@[j]),
        decreases b,
    {
        b = b - 1;
    }
    proof {
        assert(forall|j: int| b - a <= j < t.len() ==> is_space(#[trigger] t[j]));
        lemma_trim_end_subrange(t, b - a);
        assert(t.subrange(0, b - a) =~= s@.subrange(a as int, b as int));
    }
    s.substring_char(a, b)
}

/// `x` is a suffix of `s`.
pub open spec fn has_suffix(s: Seq<char>, x: Seq<char>) -> bool {
    x.len() <= s.len() && s.subrange(s.len() - x.len(), s.len() as int) == x
}

proof fn lemma_trim_end_head(s: Seq<char>)
    requires
        s.len() > 0,
        !is_space(s[0]),
    ensures
        spec_trim_end(s).len() > 0,
        spec_trim_end(s)[0] == s[0],
    decreases s.len(),
{
    if is_space(s.last()) {
        lemma_trim_end_head(s.drop_last());
    }
}

/// Trimming a sequence whose first character is no whitespace keeps that
/// character in front.
pub proof fn lemma_trim_head(s: Seq<char>)
    requires
        s.len() > 0,
        !is_space(s[0]),
    ensures
        spec_trim(s).len() > 0,
        spec_trim(s)[0] == s[0],
{
    lemma_trim_end_head(s);
}

/// The index of the first non-whitespace character of `s`; its length
/// when there is none.
pub open spec fn trim_start_index(s: Seq<char>) -> int
    decreases s.len(),
{
    if s.len() > 0 && is_space(s[0]) {
        1 + trim_start_index(s.drop_first())
    } else {
        0
    }
}

proof fn lemma_trim_start_chars(s: Seq<char>)
    ensures
        0 <= trim_start_index(s) <= s.len(),
        spec_trim_start(s) == s.subrange(trim_start_index(s), s.len() as int),
        forall|j: int| 0 <= j < trim_start_index(s) ==> is_space(#[trigger] s[j]),
    decreases s.len(),
{
    if s.len() > 0 && is_space(s[0]) {
        let t = s.drop_first();
        lemma_trim_start_chars(t);
        assert(t.subrange(trim_start_index(t), t.len() as int) =~= s.subrange(
            trim_start_index(s),
            s.len() as int,
        ));
        assert(forall|j: int|
            1 <= j < trim_start_index(s) ==> is_space(#[trigger] s[j]) == is_space(t[j - 1]));
    } else {
        assert(s.subrange(0, s.len() as int) =~= s);
    }
}

spec fn trim_end_index(s: Seq<char>) -> int
    decreases s.len(),
{
    if s.len() > 0 && is_space(s.last()) {
        trim_end_index(s.drop_last())
    } else {
        s.len() as int
    }
}

proof fn lemma_trim_end_chars(s: Seq<char>)
    ensures
        0 <= trim_end_index(s) <= s.len(),
        spec_trim_end(s) == s.subrange(0, trim_end_index(s)),
        forall|j: int| trim_end_index(s) <= j < s.len() ==> is_space(#[trigger] s[j]),
    decreases s.len(),
{
    if s.len() > 0 && is_space(s.last()) {
        let t = s.drop_last();
        lemma_trim_end_chars(t);
        assert(t.subrange(0, trim_end_index(t)) =~= s.subrange(0, trim_end_index(s)));
        assert forall|j: int| trim_end_index(s) <= j < s.len() implies is_space(
            #[trigger] s[j],
        ) by {
            if j < t.len() {
                assert(is_space(t[j]));
            } else {
                assert(s[j] == s.last());
            }
        }
    } else {
        assert(s.subrange(0, s.len() as int) =~= s);
    }
}

/// The trimmed form of `s` sits inside `s` as one window, with only
/// whitespace before and after it.
pub proof fn lemma_trim_window(s: Seq<char>)
    ensures
        0 <= trim_start_index(s),
        trim_start_index(s) + spec_trim(s).len() <= s.len(),
        spec_trim(s) == s.subrange(
            trim_start_index(s),
            trim_start_index(s) + spec_trim(s).len(),
        ),
        forall|j: int| 0 <= j < trim_start_index(s) ==> is_space(#[trigger] s[j]),
        forall|j: int|
            trim_start_index(s) + spec_trim(s).len() <= j < s.len() ==> is_space(#[trigger] s[j]),
{
    lemma_trim_start_chars(s);
    let a = trim_start_index(s);
    let t = s.subrange(a, s.len() as int);
    lemma_trim_end_chars(t);
    let b = trim_end_index(t);
    assert(t.subrange(0, b) =~= s.subrange(a, a + b));
    assert(forall|j: int|
        a + b <= j < s.len() ==> is_space(#[trigger] s[j]) == is_space(t[j - a]));
}

/// `p` is a prefix of `s`.
pub open spec fn has_prefix(s: Seq<char>, p: Seq<char>) -> bool {
    p.len() <= s.len() && s.subrange(0, p.len() as int) == p
}

/// Decides whether `s` starts with `p`.
pub fn str_starts_with(s: &str, p: &str) -> (r: bool)
    ensures
        r == has_prefix(s@, p@),
{
    let n = s.unicode_len();
    let m = p.unicode_len();
    if m > n {
        return false;
    }
    let mut i: usize = 0;
    while i < m
        invariant
            0 <= i <= m <= n,
            n == s@.len(),
            m == p@.len(),
            forall|j: int| 0 <= j < i ==> s@[j] == p@[j],
        decreases m - i,
    {
        if s.get_char(i) != p.get_char(i) {
            proof {
                assert(s@.subrange(0, m as int)[i as int] != p@[i as int]);
            }
            return false;
        }
        i = i + 1;
    }
    proof {
        assert(s@.subrange(0, m as int) =~= p@);
    }
    true
}

/// Decides whether `a` and `b` hold the same characters.
pub fn str_equal(a: &str, b: &str) -> (r: bool)
    ensures
        r == (a@ == b@),
{
    let n = a.unicode_len();
    if n != b.unicode_len() {
        return false;
    }
    let mut i: usize = 0;
    while i < n
        invariant
            0 <= i <= n,
            n == a@.len() == b@.len(),
            forall|j: int| 0 <= j < i ==> a@[j] == b@[j],
        decreases n - i,
    {
        if a.get_char(i) != b.get_char(i) {
            return false;
        }
        i = i + 1;
    }
    proof {
        assert(a@ =~= b@);
    }
    true
}

/// When a sequence of the form recipient, colon, body starts with a
/// prefix whose one colon is its last character, the recipient is
/// exactly that prefix without the colon.
pub proof fn lemma_colon_prefix_pins_recipient(
    recipient: Seq<char>,
    body: Seq<char>,
    p: Seq<char>,
)
    requires
        !contains_char(recipient, ':'),
        p.len() > 0,
        p.last() == ':',
        !contains_char(p.drop_last(), ':'),
        has_prefix(recipient + seq![':'] + body, p),
    ensures
        recipient == p.drop_last(),
{
    let frame = recipient + seq![':'] + body;
    let rl = recipient.len() as int;
    let pl = p.len() as int;
    assert(frame[rl] == ':');
    assert(forall|j: int| 0 <= j < pl ==> frame[j] == #[trigger] p[j]) by {
        assert(forall|j: int|
            0 <= j < pl ==> #[trigger] p[j] == frame.subrange(0, pl)[j] == frame[j]);
    }
    assert forall|j: int| 0 <= j < rl implies frame[j] != ':' by {
        if recipient[j] == ':' {
            assert(contains_char(recipient, ':'));
        }
    }
    if rl < pl - 1 {
        assert(p.drop_last()[rl] == ':');
        assert(contains_char(p.drop_last(), ':'));
    }
    if rl > pl - 1 {
        assert(frame[pl - 1] == ':');
    }
    assert(rl == pl - 1);
    assert(recipient =~= p.drop_last()) by {
        assert(forall|j: int| 0 <= j < rl ==> recipient[j] == #[trigger] frame[j]);
    }
}

/// `s` holds the character `c` somewhere.
pub open spec fn contains_char(s: Seq<char>, c: char) -> bool {
    exists|i: int| 0 <= i < s.len() && s[i] == c
}

/// The index of the first occurrence of `c` in `s`; `s.len()` if absent.
pub open spec fn first_index_of(s: Seq<char>, c: char) -> int
    decreases s.len(),
{
    if s.len() == 0 {
        0
    } else if s[0] == c {
        0
    } else {
        1 + first_index_of(s.drop_first(), c)
    }
}

/// `first_index_of` returns exactly the index of the first occurrence of
/// `c`, or the length of `s` when `c` is absent.
pub proof fn lemma_first_index_of(s: Seq<char>, c: char)
    ensures
        0 <= first_index_of(s, c) <= s.len(),
        contains_char(s, c) <==> first_index_of(s, c) < s.len(),
        first_index_of(s, c) < s.len() ==> s[first_index_of(s, c)] == c,
        forall|j: int| 0 <= j < first_index_of(s, c) ==> s[j] != c,
    decreases s.len(),
{
    if s.len() == 0 {
    } else if s[0] == c {
    } else {
        let t = s.drop_first();
        lemma_first_index_of(t, c);
        let k = first_index_of(s, c);
        assert(forall|j: int| 1 <= j < k ==> s[j] == t[j - 1]);
        if contains_char(s, c) {
            let w = choose|i: int| 0 <= i < s.len() && s[i] == c;
            assert(t[w - 1] == c);
            assert(contains_char(t, c));
        }
        if contains_char(t, c) {
            let w = choose|i: int| 0 <= i < t.len() && t[i] == c;
            assert(s[w + 1] == c);
            assert(contains_char(s, c));
        }
    }
}

/// Finds the first occurrence of `c` in `s`.
pub fn find_char(s: &str, c: char) -> (r: Option<usize>)
    ensures
        match r {
            Some(i) => {
                &&& contains_char(s@, c)
                &&& i == first_index_of(s@, c)
                &&& i < s@.len()
                &&& s@[i as int] == c
                &&& forall|j: int| 0 <= j < i ==> s@[j] != c
            },
            None => !contains_char(s@, c),
        },
{
    proof {
        lemma_first_index_of(s@, c);
    }
    let n = s.unicode_len();
    let mut i: usize = 0;
    while i < n
        invariant
            0 <= i <= n,
            n == s@.len(),
            forall|j: int| 0 <= j < i ==> s@[j] != c,
            0 <= first_index_of(s@, c) <= s@.len(),
            contains_char(s@, c) <==> first_index_of(s@, c) < s@.len(),
            first_index_of(s@, c) < s@.len() ==> s@[first_index_of(s@, c)] == c,
            forall|j: int| 0 <= j < first_index_of(s@, c) ==> s@[j] != c,
        decreases n - i,
    {
        if s.get_char(i) == c {
            return Some(i);
        }
        i = i + 1;
    }
    None
}

/// The maximal whitespace-separated tokens of `s`, in order.
pub open spec fn split_ws(s: Seq<char>) -> Seq<Seq<char>>
    decreases s.len(),
{
    if s.len() == 0 {
        seq![]
    } else if is_space(s[0]) {
        split_ws(s.drop_first())
    } else {
        let rest = split_ws(s.drop_first());
        if s.len() > 1 && !is_space(s[1]) {
            seq![seq![s[0]] + rest[0]] + rest.drop_first()
        } else {
            seq![seq![s[0]]] + rest
        }
    }
}

/// Splitting off a maximal non-whitespace run of length `k` yields that run
/// as the first token.
pub proof fn lemma_split_ws_token(t: Seq<char>, k: int)
    requires
        0 < k <= t.len(),
        forall|j: int| 0 <= j < k ==> !is_space(#[trigger] t[j]),
        k < t.len() ==> is_space(t[k]),
    ensures
        split_ws(t) == seq![t.subrange(0, k)] + split_ws(t.skip(k)),
    decreases k,
{
    let rest = split_ws(t.drop_first());
    if k == 1 {
        if t.len() == 1 {
            assert(t.skip(1) =~= t.drop_first());
            assert(seq![seq![t[0]]] + rest =~~= seq![t.subrange(0, 1)] + split_ws(t.skip(1)));
        } else {
            assert(is_space(t[1]));
            assert(t.drop_first() =~= t.skip(1));
            assert(seq![seq![t[0]]] + rest =~~= seq![t.subrange(0, 1)] + split_ws(t.skip(1)));
        }
    } else {
        let u = t.drop_first();
        assert(forall|j: int| 0 <= j < k - 1 ==> !is_space(#[trigger] u[j]));
        lemma_split_ws_token(u, k - 1);
        assert(rest == seq![u.subrange(0, k - 1)] + split_ws(u.skip(k - 1)));
        assert(rest[0] == u.subrange(0, k - 1));
        assert(rest.drop_first() =~~= split_ws(u.skip(k - 1)));
        assert(seq![t[0]] + u.subrange(0, k - 1) =~= t.subrange(0, k));
        assert(u.skip(k - 1) =~= t.skip(k));
        assert(!is_space(t[1]));
        assert(split_ws(t) == seq![seq![t[0]] + rest[0]] + rest.drop_first());
        assert(split_ws(t) =~~= seq![t.subrange(0, k)] + split_ws(t.skip(k)));
    }
}

/// A sequence that starts with a non-whitespace character splits into at
/// least one token.
pub proof fn lemma_split_ws_nonempty(s: Seq<char>)
    requires
        s.len() > 0,
        !is_space(s[0]),
    ensures
        split_ws(s).len() >= 1,
{
}

/// Splits `s` into its maximal whitespace-separated tokens.
pub fn split_whitespace_tokens(s: &str) -> (r: Vec<String>)
    ensures
        r.deep_view() == split_ws(s@),
{
    let n = s.unicode_len();
    let mut r: Vec<String> = Vec::new();
    let mut p: usize = 0;
    proof {
        assert(s@.skip(0) =~= s@);
        assert(r.deep_view() + split_ws(s@) =~~= split_ws(s@));
    }
    while p < n
        invariant
            0 <= p <= n,
            n == s@.len(),
            r.deep_view() + split_ws(s@.skip(p as int)) == split_ws(s@),
        decreases n - p,
    {
        if is_space_char(s.get_char(p)) {
            proof {
                assert(s@.skip(p as int).drop_first() =~= s@.skip(p as int + 1));
            }
            p = p + 1;
        } else {
            let mut q: usize = p + 1;
            while q < n && !is_space_char(s.get_char(q))
                invariant
                    p < q <= n,
                    n == s@.len(),
                    forall|j: int| p <= j < q ==> !is_space(#[trigger] s@[j]),
                decreases n - q,
            {
                q = q + 1;
            }
            let tok = s.substring_char(p, q);
            let ghost old_r = r.deep_view();
            r.push(String::from_str(tok));
            proof {
                let t = s@.skip(p as int);
                assert(forall|j: int| 0 <= j < q - p ==> !is_space(#[trigger] t[j]));
                lemma_split_ws_token(t, q - p);
                assert(t.subrange(0, q - p) =~= s@.subrange(p as int, q as int));
                assert(t.skip(q - p) =~= s@.skip(q as int));
                assert(r.deep_view() =~~= old_r + seq![tok@]);
                assert(r.deep_view() + split_ws(s@.skip(q as int)) =~~= split_ws(s@));
            }
            p = q;
        }
    }
    proof {
        assert(s@.skip(n as int) =~= Seq::<char>::empty());
        assert(r.deep_view() =~~= split_ws(s@));
    }
    r
}

/// The decimal digit character for `d`.
pub open spec fn digit_char(d: int) -> char {
    if d == 0 {
        '0'
    } else if d == 1 {
        '1'
    } else if d == 2 {
        '2'
    } else if d == 3 {
        '3'
    } else if d == 4 {
        '4'
    } else if d == 5 {
        '5'
    } else if d == 6 {
        '6'
    } else if d == 7 {
        '7'
    } else if d == 8 {
        '8'
    } else {
        '9'
    }
}

/// The decimal digits of `n`, most significant first.
pub open spec fn spec_u64_digits(n: nat) -> Seq<char>
    decreases n,
{
    if n < 10 {
        seq![digit_char(n as int)]
    } else {
        spec_u64_digits(n / 10) + seq![digit_char((n % 10) as int)]
    }
}

/// The decimal rendering of `n`, with a leading `-` when negative.
pub open spec fn spec_i64_chars(n: int) -> Seq<char> {
    if n < 0 {
        seq!['-'] + spec_u64_digits((-n) as nat)
    } else {
        spec_u64_digits(n as nat)
    }
}

fn digit_str(d: u64) -> (r: &'static str)
    requires
        d < 10,
    ensures
        r@ == seq![digit_char(d as int)],
{
    proof {
        reveal_strlit("0");
        reveal_strlit("1");
        reveal_strlit("2");
        reveal_strlit("3");
        reveal_strlit("4");
        reveal_strlit("5");
        reveal_strlit("6");
        reveal_strlit("7");
        reveal_strlit("8");
        reveal_strlit("9");
    }
    let r = match d {
        0 => "0",
        1 => "1",
        2 => "2",
        3 => "3",
        4 => "4",
        5 => "5",
        6 => "6",
        7 => "7",
        8 => "8",
        _ => "9",
    };
    proof {
        assert(r@ =~= seq![digit_char(d as int)]);
    }
    r
}

/// Renders `n` in decimal.
pub fn u64_to_string(n: u64) -> (r: String)
    ensures
        r@ == spec_u64_digits(n as nat),
    decreases n,
{
    if n < 10 {
        String::from_str(digit_str(n))
    } else {
        let mut s = u64_to_string(n / 10);
        s.append(digit_str(n % 10));
        s
    }
}

/// Renders `n` in decimal, with a leading `-` when negative.
pub fn i64_to_string(n: i64) -> (r: String)
    ensures
        r@ == spec_i64_chars(n as int),
{
    if n >= 0 {
        u64_to_string(n as u64)
    } else {
        let m: u64 = ((-(n + 1)) as u64) + 1;
        proof {
            assert(m as int == -(n as int));
        }
        let mut s = String::from_str("-");
        let digits = u64_to_string(m);
        s.append(digits.as_str());
        proof {
            reveal_strlit("-");
            assert(s@ =~= spec_i64_chars(n as int));
        }
        s
    }
}

/// The serialized message form `<timestamp>:<sender>:<recipient>:<body>`.
pub open spec fn spec_outgoing_message(
    username: Seq<char>,
    recipient: Seq<char>,
    body: Seq<char>,
    timestamp: int,
) -> Seq<char> {
    spec_i64_chars(timestamp) + seq![':'] + username + seq![':'] + recipient + seq![':'] + body
}

/// Serializes a relayed message as `<timestamp>:<sender>:<recipient>:<body>`.
pub fn format_outgoing_message(
    username: &str,
    recipient: &str,
    command_message: &str,
    timestamp: i64,
) -> (r: String)
    ensures
        r@ == spec_outgoing_message(username@, recipient@, command_message@, timestamp as int),
{
    let mut s = i64_to_string(timestamp);
    s.append(":");
    s.append(username);
    s.append(":");
    s.append(recipient);
    s.append(":");
    s.append(command_message);
    proof {
        reveal_strlit(":");
        assert(":"@ =~= seq![':']);
        assert(s@ =~= spec_outgoing_message(
            username@,
            recipient@,
            command_message@,
            timestamp as int,
        ));
    }
    s
}

} // verus!
