use vstd::prelude::*;
use vstd::string::*;

verus! {

/// Three-way result of comparing two strings.
#[derive(PartialEq, Eq, Structural, Clone, Copy, Debug)]
pub enum StrOrd {
    Lt,
    Eq,
    Gt,
}

/// Strict lexicographic order on character sequences, by Unicode scalar value.
pub open spec fn str_lt(a: Seq<char>, b: Seq<char>) -> bool
    decreases a.len(),
{
    if b.len() == 0 {
        false
    } else if a.len() == 0 {
        true
    } else if a[0] != b[0] {
        (a[0] as u32) < (b[0] as u32)
    } else {
        str_lt(a.skip(1), b.skip(1))
    }
}

/// Distinct characters have distinct Unicode scalar values.
proof fn lemma_char_neq_u32(c1: char, c2: char)
    requires
        c1 != c2,
    ensures
        (c1 as u32) != (c2 as u32),
{
    if (c1 as u32) == (c2 as u32) {
        vstd::utf8::char_u32_cast(c1, c1 as u32);
        vstd::utf8::char_u32_cast(c2, c2 as u32);
    }
}

pub proof fn lemma_str_lt_irrefl(a: Seq<char>)
    ensures
        !str_lt(a, a),
    decreases a.len(),
{
    if a.len() > 0 {
        lemma_str_lt_irrefl(a.skip(1));
    }
}

/// If neither sequence is below the other, they are equal.
pub proof fn lemma_str_lt_connected(a: Seq<char>, b: Seq<char>)
    requires
        !str_lt(a, b),
        !str_lt(b, a),
    ensures
        a == b,
    decreases a.len(),
{
    if a.len() == 0 || b.len() == 0 {
        assert(a.len() == 0 && b.len() == 0);
        assert(a =~= b);
    } else {
        if a[0] != b[0] {
            lemma_char_neq_u32(a[0], b[0]);
            assert(false);
        } else {
            lemma_str_lt_connected(a.skip(1), b.skip(1));
            assert(a =~= seq![a[0]] + a.skip(1));
            assert(b =~= seq![b[0]] + b.skip(1));
        }
    }
}

pub proof fn lemma_str_lt_trans(a: Seq<char>, b: Seq<char>, c: Seq<char>)
    requires
        str_lt(a, b),
        str_lt(b, c),
    ensures
        str_lt(a, c),
    decreases a.len(),
{
    if a.len() == 0 {
        assert(b.len() > 0 && c.len() > 0);
    } else {
        assert(b.len() > 0 && c.len() > 0);
        if a[0] == b[0] && b[0] == c[0] {
            lemma_str_lt_trans(a.skip(1), b.skip(1), c.skip(1));
        }
    }
}

/// Compares two strings lexicographically by Unicode scalar value.
pub fn str_cmp(a: &str, b: &str) -> (r: StrOrd)
    ensures
        r == StrOrd::Lt ==> str_lt(a@, b@),
        r == StrOrd::Gt ==> str_lt(b@, a@),
        r == StrOrd::Eq ==> a@ == b@,
{
    let alen: usize = a.unicode_len();
    let blen: usize = b.unicode_len();
    let mut i: usize = 0;
    loop
        invariant
            i <= alen,
            i <= blen,
            alen == a@.len(),
            blen == b@.len(),
            a@.subrange(0, i as int) == b@.subrange(0, i as int),
        decreases alen - i,
    {
        if i == alen && i == blen {
            proof {
                assert(a@ =~= a@.subrange(0, i as int));
                assert(b@ =~= b@.subrange(0, i as int));
            }
            return StrOrd::Eq;
        }
        if i == alen {
            proof {
                lemma_prefix_lt(a@, b@, i as int);
            }
            return StrOrd::Lt;
        }
        if i == blen {
            proof {
                lemma_prefix_lt(b@, a@, i as int);
            }
            return StrOrd::Gt;
        }
        let ca: char = a.get_char(i);
        let cb: char = b.get_char(i);
        if (ca as u32) < (cb as u32) {
            proof {
                lemma_diverge_lt(a@, b@, i as int);
            }
            return StrOrd::Lt;
        }
        if (cb as u32) < (ca as u32) {
            proof {
                lemma_diverge_lt(b@, a@, i as int);
            }
            return StrOrd::Gt;
        }
        proof {
            assert(ca == cb) by {
                if ca != cb {
                    lemma_char_neq_u32(ca, cb);
                }
            }
            assert(a@.subrange(0, i + 1 as int) =~= a@.subrange(0, i as int).push(a@[i as int]));
            assert(b@.subrange(0, i + 1 as int) =~= b@.subrange(0, i as int).push(b@[i as int]));
        }
        i = i + 1;
    }
}

/// A proper prefix is lexicographically below the longer sequence.
proof fn lemma_prefix_lt(a: Seq<char>, b: Seq<char>, i: int)
    requires
        0 <= i <= a.len(),
        i <= b.len(),
        a.len() == i,
        b.len() > i,
        a.subrange(0, i) == b.subrange(0, i),
    ensures
        str_lt(a, b),
    decreases i,
{
    if i == 0 {
    } else {
        assert(a.subrange(0, i)[0] == a[0]);
        assert(b.subrange(0, i)[0] == b[0]);
        assert(a[0] == b[0]);
        assert(a.skip(1).subrange(0, i - 1) =~= a.subrange(0, i).skip(1));
        assert(b.skip(1).subrange(0, i - 1) =~= b.subrange(0, i).skip(1));
        lemma_prefix_lt(a.skip(1), b.skip(1), i - 1);
    }
}

/// If two sequences agree below position `i` and differ there with
/// `a[i] < b[i]`, then `a` is lexicographically below `b`.
proof fn lemma_diverge_lt(a: Seq<char>, b: Seq<char>, i: int)
    requires
        0 <= i < a.len(),
        i < b.len(),
        a.subrange(0, i) == b.subrange(0, i),
        (a[i] as u32) < (b[i] as u32),
    ensures
        str_lt(a, b),
    decreases i,
{
    if i == 0 {
    } else {
        assert(a.subrange(0, i)[0] == a[0]);
        assert(b.subrange(0, i)[0] == b[0]);
        assert(a[0] == b[0]);
        assert(a.skip(1).subrange(0, i - 1) =~= a.subrange(0, i).skip(1));
        assert(b.skip(1).subrange(0, i - 1) =~= b.subrange(0, i).skip(1));
        assert(a.skip(1)[i - 1] == a[i]);
        assert(b.skip(1)[i - 1] == b[i]);
        lemma_diverge_lt(a.skip(1), b.skip(1), i - 1);
    }
}

/// Whether `p` is a prefix of `s`.
pub open spec fn spec_starts_with(s: Seq<char>, p: Seq<char>) -> bool {
    p.len() <= s.len() && s.subrange(0, p.len() as int) == p
}

/// Whether `p` is a suffix of `s`.
pub open spec fn spec_ends_with(s: Seq<char>, p: Seq<char>) -> bool {
    p.len() <= s.len() && s.subrange(s.len() - p.len(), s.len() as int) == p
}

pub fn starts_with_str(s: &str, p: &str) -> (r: bool)
    ensures
        r == spec_starts_with(s@, p@),
{
    let slen: usize = s.unicode_len();
    let plen: usize = p.unicode_len();
    if plen > slen {
        return false;
    }
    let mut i: usize = 0;
    while i < plen
        invariant
            0 <= i <= plen <= slen,
            slen == s@.len(),
            plen == p@.len(),
            s@.subrange(0, i as int) == p@.subrange(0, i as int),
        decreases plen - i,
    {
        let cs: char = s.get_char(i);
        let cp: char = p.get_char(i);
        if cs != cp {
            proof {
                assert(s@.subrange(0, plen as int)[i as int] == s@[i as int]);
            }
            return false;
        }
        proof {
            assert(s@.subrange(0, i + 1 as int) =~= s@.subrange(0, i as int).push(s@[i as int]));
            assert(p@.subrange(0, i + 1 as int) =~= p@.subrange(0, i as int).push(p@[i as int]));
        }
        i = i + 1;
    }
    proof {
        assert(p@ =~= p@.subrange(0, plen as int));
    }
    true
}

pub fn ends_with_str(s: &str, p: &str) -> (r: bool)
    ensures
        r == spec_ends_with(s@, p@),
{
    let slen: usize = s.unicode_len();
    let plen: usize = p.unicode_len();
    if plen > slen {
        return false;
    }
    let off: usize = slen - plen;
    let mut i: usize = 0;
    while i < plen
        invariant
            0 <= i <= plen <= slen,
            off == slen - plen,
            slen == s@.len(),
            plen == p@.len(),
            s@.subrange(off as int, off + i as int) == p@.subrange(0, i as int),
        decreases plen - i,
    {
        let cs: char = s.get_char(off + i);
        let cp: char = p.get_char(i);
        if cs != cp {
            proof {
                assert(s@.subrange(off as int, slen as int)[i as int] == s@[off + i]);
            }
            return false;
        }
        proof {
            assert(s@.subrange(off as int, off + (i + 1) as int) =~= s@.subrange(
                off as int,
                off + i as int,
            ).push(s@[off + i]));
            assert(p@.subrange(0, i + 1 as int) =~= p@.subrange(0, i as int).push(p@[i as int]));
        }
        i = i + 1;
    }
    proof {
        assert(p@ =~= p@.subrange(0, plen as int));
    }
    true
}

/// The pieces of a comma-separated list, joined.
pub open spec fn spec_join_commas(parts: Seq<Seq<char>>) -> Seq<char>
    decreases parts.len(),
{
    if parts.len() == 0 {
        Seq::<char>::empty()
    } else if parts.len() == 1 {
        parts[0]
    } else {
        spec_join_commas(parts.drop_last()) + seq![','] + parts.last()
    }
}

/// Joins strings with commas: `a,b,c`.
pub fn join_commas(parts: &Vec<String>) -> (r: String)
    ensures
        r@ == spec_join_commas(parts@.map_values(|s: String| s@)),
{
    let ghost vparts = parts@.map_values(|s: String| s@);
    let mut r = String::new();
    let mut i: usize = 0;
    while i < parts.len()
        invariant
            0 <= i <= parts.len(),
            vparts == parts@.map_values(|s: String| s@),
            vparts.len() == parts@.len(),
            r@ == spec_join_commas(vparts.subrange(0, i as int)),
        decreases parts.len() - i,
    {
        if i > 0 {
            r.append(",");
            proof {
                reveal_strlit(",");
            }
        }
        r.append(parts[i].as_str());
        proof {
            assert(vparts[i as int] == parts@[i as int]@);
            let sub = vparts.subrange(0, i + 1 as int);
            assert(sub.drop_last() =~= vparts.subrange(0, i as int));
            assert(sub.last() == vparts[i as int]);
            if i == 0 {
                assert(r@ =~= spec_join_commas(sub));
            } else {
                assert(r@ =~= spec_join_commas(sub));
            }
        }
        i = i + 1;
    }
    proof {
        assert(vparts.subrange(0, parts@.len() as int) =~= vparts);
    }
    r
}

/// The decimal digits of `n`, most significant first.
pub open spec fn spec_dec(n: nat) -> Seq<char>
    decreases n,
{
    if n < 10 {
        seq![spec_digit(n)]
    } else {
        spec_dec(n / 10) + seq![spec_digit(n % 10)]
    }
}

pub open spec fn spec_digit(d: nat) -> char {
    if d == 0 {
        '0'
    } else if d == 1 {
        '1'
    } else if d == 2 {
        '2'
    } else if d == 3 {
        '3'
    } else if d == 4 {
        '4'
    } else if d == 5 {
        '5'
    } else if d == 6 {
        '6'
    } else if d == 7 {
        '7'
    } else if d == 8 {
        '8'
    } else {
        '9'
    }
}

fn digit_str(d: u64) -> (c: &'static str)
    requires
        d < 10,
    ensures
        c@ == seq![spec_digit(d as nat)],
{
    proof {
        reveal_strlit("0");
        reveal_strlit("1");
        reveal_strlit("2");
        reveal_strlit("3");
        reveal_strlit("4");
        reveal_strlit("5");
        reveal_strlit("6");
        reveal_strlit("7");
        reveal_strlit("8");
        reveal_strlit("9");
    }
    let r: &'static str = if d == 0 {
        "0"
    } else if d == 1 {
        "1"
    } else if d == 2 {
        "2"
    } else if d == 3 {
        "3"
    } else if d == 4 {
        "4"
    } else if d == 5 {
        "5"
    } else if d == 6 {
        "6"
    } else if d == 7 {
        "7"
    } else if d == 8 {
        "8"
    } else {
        "9"
    };
    proof {
        assert(r@ =~= seq![spec_digit(d as nat)]);
    }
    r
}

/// Renders `n` in decimal.
pub fn u64_to_dec(n: u64) -> (r: String)
    ensures
        r@ == spec_dec(n as nat),
    decreases n,
{
    if n < 10 {
        let c: &str = digit_str(n);
        let s = c.to_owned();
        proof {
            assert(s@ =~= spec_dec(n as nat));
        }
        s
    } else {
        let mut s = u64_to_dec(n / 10);
        let c: &str = digit_str(n % 10);
        s.append(c);
        proof {
            assert(s@ =~= spec_dec(n as nat));
        }
        s
    }
}


/// Renders `n` in decimal.
pub fn u128_to_dec(n: u128) -> (r: String)
    ensures
        r@ == spec_dec(n as nat),
    decreases n,
{
    if n < 10 {
        let c: &str = digit_str((n % 10) as u64);
        let s = c.to_owned();
        proof {
            assert(s@ =~= spec_dec(n as nat));
        }
        s
    } else {
        let mut s = u128_to_dec(n / 10);
        let c: &str = digit_str((n % 10) as u64);
        s.append(c);
        proof {
            assert(s@ =~= spec_dec(n as nat));
        }
        s
    }
}

/// The position just after the last `:` in `s`, or 0 if there is none.
pub open spec fn spec_after_last_colon(s: Seq<char>) -> int
    decreases s.len(),
{
    if s.len() == 0 {
        0
    } else if s.last() == ':' {
        s.len() as int
    } else {
        spec_after_last_colon(s.drop_last())
    }
}

pub proof fn lemma_after_last_colon_bounds(s: Seq<char>)
    ensures
        0 <= spec_after_last_colon(s) <= s.len(),
    decreases s.len(),
{
    if s.len() > 0 && s.last() != ':' {
        lemma_after_last_colon_bounds(s.drop_last());
    }
}

/// The contract-name part of a suite identifier `<file>:<name>`:
/// everything after the last colon (the whole string when there is none).
pub fn contract_name_of(id: &str) -> (r: String)
    ensures
        r@ == id@.subrange(spec_after_last_colon(id@), id@.len() as int),
{
    let len: usize = id.unicode_len();
    let mut i: usize = len;
    proof {
        assert(id@.subrange(0, len as int) =~= id@);
    }
    loop
        invariant
            0 <= i <= len,
            len == id@.len(),
            spec_after_last_colon(id@) == spec_after_last_colon(id@.subrange(0, i as int)),
        decreases i,
    {
        proof {
            lemma_after_last_colon_bounds(id@.subrange(0, i as int));
            lemma_after_last_colon_bounds(id@);
        }
        if i == 0 {
            let r: &str = id.substring_char(0, len);
            proof {
                assert(id@.subrange(0, len as int) =~= id@);
            }
            return r.to_owned();
        }
        let c: char = id.get_char(i - 1);
        if c == ':' {
            proof {
                let pre = id@.subrange(0, i as int);
                assert(pre.last() == ':');
                assert(spec_after_last_colon(pre) == i as int);
            }
            let r: &str = id.substring_char(i, len);
            return r.to_owned();
        }
        proof {
            let pre = id@.subrange(0, i as int);
            assert(pre.last() != ':');
            assert(pre.drop_last() =~= id@.subrange(0, i - 1 as int));
        }
        i = i - 1;
    }
}

/// The file part of a suite identifier `<file>:<name>`: everything before
/// the last colon (the whole string when there is none).
pub fn file_name_of(id: &str) -> (r: String)
    ensures
        spec_after_last_colon(id@) == 0 ==> r@ == id@,
        spec_after_last_colon(id@) > 0 ==> r@ == id@.subrange(0, spec_after_last_colon(id@) - 1),
{
    let len: usize = id.unicode_len();
    let mut i: usize = len;
    proof {
        assert(id@.subrange(0, len as int) =~= id@);
    }
    loop
        invariant
            0 <= i <= len,
            len == id@.len(),
            spec_after_last_colon(id@) == spec_after_last_colon(id@.subrange(0, i as int)),
        decreases i,
    {
        proof {
            lemma_after_last_colon_bounds(id@.subrange(0, i as int));
            lemma_after_last_colon_bounds(id@);
        }
        if i == 0 {
            proof {
                assert(id@.subrange(0, len as int) =~= id@);
            }
            let r: &str = id.substring_char(0, len);
            return r.to_owned();
        }
        let c: char = id.get_char(i - 1);
        if c == ':' {
            proof {
                let pre = id@.subrange(0, i as int);
                assert(pre.last() == ':');
                assert(spec_after_last_colon(pre) == i as int);
            }
            let r: &str = id.substring_char(0, i - 1);
            return r.to_owned();
        }
        proof {
            let pre = id@.subrange(0, i as int);
            assert(pre.last() != ':');
            assert(pre.drop_last() =~= id@.subrange(0, i - 1 as int));
        }
        i = i - 1;
    }
}

} // verus!
