//! String helpers shared by the configuration checks, the session rules and
//! the metrics renderer: character-exact comparison, prefix tests,
//! ASCII-case-insensitive matching, joining and trimming.

use vstd::prelude::*;
use vstd::string::StrSliceExecFns;
use vstd::string::StringExecFns;

verus! {

/// Relies on String::push: appends exactly the given character.
#[verifier::external_body]
pub fn push_char(s: &mut String, c: char)
    ensures
        final(s)@ == old(s)@.push(c),
{
    s.push(c);
}

/// The contents of an optional string, or the given default when absent.
pub open spec fn or_view(o: Option<String>, d: Seq<char>) -> Seq<char> {
    match o {
        Option::Some(s) => s@,
        Option::None => d,
    }
}

pub fn unwrap_or_string(o: &Option<String>, d: &str) -> (r: String)
    ensures
        r@ == or_view(*o, d@),
{
    match o {
        Option::Some(s) => s.clone(),
        Option::None => d.to_owned(),
    }
}

/// `p` is an initial segment of `s`.
pub open spec fn prefix_view(s: Seq<char>, p: Seq<char>) -> bool {
    p.len() <= s.len() && s.take(p.len() as int) == p
}

pub fn has_prefix(s: &str, p: &str) -> (r: bool)
    ensures
        r == prefix_view(s@, p@),
{
    let ls = s.unicode_len();
    let lp = p.unicode_len();
    if lp > ls {
        return false;
    }
    let mut i: usize = 0;
    while i < lp
        invariant
            i <= lp,
            lp <= ls,
            ls as nat == s@.len(),
            lp as nat == p@.len(),
            forall|j: int| 0 <= j < i ==> s@[j] == p@[j],
        decreases lp - i,
    {
        let cs = s.get_char(i);
        let cp = p.get_char(i);
        if cs != cp {
            assert(s@.take(lp as int)[i as int] == s@[i as int]);
            return false;
        }
        i += 1;
    }
    proof {
        assert(s@.take(lp as int) =~= p@);
    }
    true
}

/// `y` is `x` with an ASCII upper-case letter folded to lower case, or `x`
/// itself.
pub open spec fn lower_eq_char(x: char, y: char) -> bool {
    x == y || (65 <= x as int && x as int <= 90 && x as int + 32 == y as int)
}

/// `a` matches `b` when ASCII upper-case letters of `a` are folded to lower
/// case; `b` is expected to be the lower-case form.
pub open spec fn lower_matches(a: Seq<char>, b: Seq<char>) -> bool {
    a.len() == b.len() && (forall|i: int| 0 <= i < a.len() ==> lower_eq_char(a[i], b[i]))
}

pub fn eq_ignore_ascii_upper(s: &str, t: &str) -> (r: bool)
    ensures
        r == lower_matches(s@, t@),
{
    let ls = s.unicode_len();
    let lt = t.unicode_len();
    if ls != lt {
        return false;
    }
    let mut i: usize = 0;
    while i < ls
        invariant
            i <= ls,
            ls == lt,
            ls as nat == s@.len(),
            lt as nat == t@.len(),
            forall|j: int| 0 <= j < i ==> lower_eq_char(s@[j], t@[j]),
        decreases ls - i,
    {
        let cs = s.get_char(i);
        let ct = t.get_char(i);
        let us = cs as u32;
        let ut = ct as u32;
        let ok = cs == ct || (65 <= us && us <= 90 && us + 32 == ut);
        if !ok {
            return false;
        }
        i += 1;
    }
    true
}

/// The pieces joined with the separator between consecutive pieces.
pub open spec fn join_view(items: Seq<Seq<char>>, sep: Seq<char>) -> Seq<char>
    decreases items.len(),
{
    if items.len() == 0 {
        Seq::empty()
    } else if items.len() == 1 {
        items[0]
    } else {
        join_view(items.drop_last(), sep) + sep + items.last()
    }
}

pub fn join_all(items: &Vec<String>, sep: &str) -> (r: String)
    ensures
        r@ == join_view(items.deep_view(), sep@),
{
    let mut out = String::new();
    let mut i: usize = 0;
    while i < items.len()
        invariant
            i <= items.len(),
            out@ == join_view(items.deep_view().take(i as int), sep@),
        decreases items.len() - i,
    {
        if i > 0 {
            out.append(sep);
        }
        out.append(items[i].as_str());
        proof {
            let dv = items.deep_view();
            assert(dv.take(i + 1).drop_last() =~= dv.take(i as int));
            assert(dv.take(i + 1).last() == dv[i as int]);
        }
        i += 1;
    }
    proof {
        assert(items.deep_view().take(items.len() as int) =~= items.deep_view());
    }
    out
}

/// The sequence with every trailing occurrence of `c` removed.
pub open spec fn trim_end_view(s: Seq<char>, c: char) -> Seq<char>
    decreases s.len(),
{
    if s.len() > 0 && s.last() == c {
        trim_end_view(s.drop_last(), c)
    } else {
        s
    }
}

proof fn lemma_trim_end_at(s: Seq<char>, c: char, cut: int)
    requires
        0 <= cut <= s.len(),
        forall|j: int| cut <= j < s.len() ==> s[j] == c,
        cut > 0 ==> s[cut - 1] != c,
    ensures
        trim_end_view(s, c) == s.take(cut),
    decreases s.len(),
{
    if cut == s.len() {
        assert(s.take(cut) =~= s);
        if s.len() > 0 {
            assert(s.last() != c);
        }
    } else {
        assert(s.len() > 0 && s.last() == c);
        lemma_trim_end_at(s.drop_last(), c, cut);
        assert(s.drop_last().take(cut) =~= s.take(cut));
    }
}

pub fn trim_end_char(s: &str, c: char) -> (r: String)
    ensures
        r@ == trim_end_view(s@, c),
{
    let len = s.unicode_len();
    let mut cut: usize = len;
    while cut > 0 && s.get_char(cut - 1) == c
        invariant
            cut <= len,
            len as nat == s@.len(),
            forall|j: int| cut <= j < s@.len() ==> s@[j] == c,
        decreases cut,
    {
        cut -= 1;
    }
    proof {
        lemma_trim_end_at(s@, c, cut as int);
    }
    s.substring_char(0, cut).to_owned()
}

} // verus!
