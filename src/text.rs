use vstd::prelude::*;

verus! {

/// `p` is a prefix of `s`.
pub open spec fn has_prefix(s: Seq<char>, p: Seq<char>) -> bool {
    p.len() <= s.len() && s.subrange(0, p.len() as int) == p
}

/// `p` occurs in `s` at position `i`.
pub open spec fn occurs_at(s: Seq<char>, p: Seq<char>, i: int) -> bool {
    0 <= i && i + p.len() <= s.len() && s.subrange(i, i + p.len()) == p
}

/// `p` occurs somewhere in `s`.
pub open spec fn has_infix(s: Seq<char>, p: Seq<char>) -> bool {
    exists|i: int| occurs_at(s, p, i)
}

/// The characters of `s`, one by one.
pub fn chars_of(s: &str) -> (r: Vec<char>)
    ensures
        r@ == s@,
{
    let n = s.unicode_len();
    let mut r: Vec<char> = Vec::new();
    let mut i: usize = 0;
    while i < n
        invariant
            n == s@.len(),
            i <= n,
            r@ == s@.subrange(0, i as int),
        decreases n - i,
    {
        let c = s.get_char(i);
        r.push(c);
        i = i + 1;
        assert(r@ =~= s@.subrange(0, i as int));
    }
    assert(r@ =~= s@);
    r
}

fn occurs_at_chars(s: &Vec<char>, p: &Vec<char>, i: usize) -> (r: bool)
    requires
        i + p@.len() <= s@.len(),
    ensures
        r == occurs_at(s@, p@, i as int),
{
    let n = s.len();
    let mut j: usize = 0;
    while j < p.len()
        invariant
            n == s@.len(),
            i + p@.len() <= s@.len(),
            j <= p@.len(),
            forall|k: int| 0 <= k < j ==> s@[i + k] == p@[k],
        decreases p@.len() - j,
    {
        assert(i + j < s@.len());
        let idx: usize = i + j;
        if s[idx] != p[j] {
            assert(s@.subrange(i as int, i + p@.len())[j as int] != p@[j as int]);
            return false;
        }
        j = j + 1;
    }
    assert(s@.subrange(i as int, i + p@.len()) =~= p@);
    true
}

/// Whether `s` begins with `p`.
pub fn starts_with(s: &str, p: &str) -> (r: bool)
    ensures
        r == has_prefix(s@, p@),
{
    let sc = chars_of(s);
    let pc = chars_of(p);
    if pc.len() > sc.len() {
        return false;
    }
    occurs_at_chars(&sc, &pc, 0)
}

/// Whether `p` occurs in `s`.
pub fn contains(s: &str, p: &str) -> (r: bool)
    ensures
        r == has_infix(s@, p@),
{
    let sc = chars_of(s);
    let pc = chars_of(p);
    if pc.len() > sc.len() {
        assert(forall|i: int| !occurs_at(s@, p@, i));
        return false;
    }
    let last = sc.len() - pc.len();
    let mut i: usize = 0;
    loop
        invariant
            sc@ == s@,
            pc@ == p@,
            last == sc@.len() - pc@.len(),
            i <= last,
            forall|k: int| 0 <= k < i ==> !occurs_at(s@, p@, k),
        ensures
            forall|k: int| 0 <= k <= last ==> !occurs_at(s@, p@, k),
        decreases last - i,
    {
        if occurs_at_chars(&sc, &pc, i) {
            return true;
        }
        if i == last {
            break;
        }
        i = i + 1;
    }
    assert(forall|k: int| !occurs_at(s@, p@, k)) by {
        assert forall|k: int| !occurs_at(s@, p@, k) by {
            if 0 <= k && k + p@.len() <= s@.len() {
                assert(k <= last);
            }
        }
    }
    false
}

/// Whether two texts are the same.
pub fn same_text(s: &str, t: &str) -> (r: bool)
    ensures
        r == (s@ == t@),
{
    let sc = chars_of(s);
    let tc = chars_of(t);
    if sc.len() != tc.len() {
        return false;
    }
    let b = occurs_at_chars(&sc, &tc, 0);
    assert(s@.subrange(0, t@.len() as int) =~= s@);
    b
}

/// `a` followed by `b`.
pub fn join(a: &str, b: &str) -> (r: String)
    ensures
        r@ == a@ + b@,
{
    String::from_str(a).concat(b)
}

/// The decimal digit for `d`.
pub open spec fn digit_char(d: nat) -> char {
    if d == 0 { '0' }
    else if d == 1 { '1' }
    else if d == 2 { '2' }
    else if d == 3 { '3' }
    else if d == 4 { '4' }
    else if d == 5 { '5' }
    else if d == 6 { '6' }
    else if d == 7 { '7' }
    else if d == 8 { '8' }
    else { '9' }
}

/// The decimal notation of `n`, without leading zeros.
pub open spec fn decimal(n: nat) -> Seq<char>
    decreases n,
{
    if n < 10 {
        seq![digit_char(n)]
    } else {
        decimal(n / 10).push(digit_char(n % 10))
    }
}

fn digit_text(d: usize) -> (r: &'static str)
    requires
        d < 10,
    ensures
        r@ == seq![digit_char(d as nat)],
{
    proof {
        reveal_strlit("0");
        reveal_strlit("1");
        reveal_strlit("2");
        reveal_strlit("3");
        reveal_strlit("4");
        reveal_strlit("5");
        reveal_strlit("6");
        reveal_strlit("7");
        reveal_strlit("8");
        reveal_strlit("9");
    }
    let r = if d == 0 { "0" }
    else if d == 1 { "1" }
    else if d == 2 { "2" }
    else if d == 3 { "3" }
    else if d == 4 { "4" }
    else if d == 5 { "5" }
    else if d == 6 { "6" }
    else if d == 7 { "7" }
    else if d == 8 { "8" }
    else { "9" };
    assert(r@ =~= seq![digit_char(d as nat)]);
    r
}

/// The decimal notation of `n`.
pub fn decimal_text(n: usize) -> (r: String)
    ensures
        r@ == decimal(n as nat),
    decreases n,
{
    if n < 10 {
        String::from_str(digit_text(n))
    } else {
        let head = decimal_text(n / 10);
        let r = head.concat(digit_text(n % 10));
        assert(r@ =~= decimal(n as nat));
        r
    }
}

} // verus!
