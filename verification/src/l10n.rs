//! Choosing the user-interface language from the POSIX locale variables.
//!
//! The caller reads `LC_ALL`, `LC_MESSAGES` and `LANG` (in that order) and
//! hands their values over; the choice among the available locales is
//! made here.
use crate::text::{push_char, str_eq};
use vstd::string::StringSliceAdditionalSpecFns;
use vstd::prelude::*;

verus! {

/// A character as locale names are compared: ASCII letters lowercased and
/// `_` read as `-`.
pub open spec fn norm_char(c: char) -> char {
    if 'A' <= c && c <= 'Z' {
        ((c as u32) + 32) as char
    } else if c == '_' {
        '-'
    } else {
        c
    }
}

/// A locale name as compared: `s.to_ascii_lowercase().replace('_', "-")`.
pub open spec fn norm(s: Seq<char>) -> Seq<char> {
    s.map_values(|c: char| norm_char(c))
}

/// Whether `lang` names a more general locale than `val`: the normalized
/// `val` is the normalized `lang` followed by `-`, `.` or `@` and more.
pub open spec fn is_prefix_locale(val: Seq<char>, lang: Seq<char>) -> bool {
    let v = norm(val);
    let l = norm(lang);
    &&& v.len() > l.len()
    &&& v.take(l.len() as int) == l
    &&& (v[l.len() as int] == '-' || v[l.len() as int] == '.' || v[l.len() as int] == '@')
}

/// The first of the first `n` locales whose normalized name equals the
/// normalized `val`.
pub open spec fn exact_match(val: Seq<char>, langs: Seq<&'static str>, n: int) -> Option<int>
    decreases n,
{
    if n <= 0 {
        None
    } else {
        match exact_match(val, langs, n - 1) {
            Some(i) => Some(i),
            None => if norm(langs[n - 1]@) == norm(val) {
                Some(n - 1)
            } else {
                None
            },
        }
    }
}

/// Among the first `n` locales that are prefixes of `val`, the first of
/// the longest (by length in bytes).
pub open spec fn longest_prefix(val: Seq<char>, langs: Seq<&'static str>, n: int) -> Option<int>
    decreases n,
{
    if n <= 0 {
        None
    } else {
        let b = longest_prefix(val, langs, n - 1);
        if is_prefix_locale(val, langs[n - 1]@) && match b {
            None => true,
            Some(i) => langs[n - 1].len() > langs[i].len(),
        } {
            Some(n - 1)
        } else {
            b
        }
    }
}

/// The locale a variable's value selects: an exact match first, then the
/// longest more general one.
pub open spec fn spec_pick(val: Seq<char>, langs: Seq<&'static str>) -> Option<int> {
    match exact_match(val, langs, langs.len() as int) {
        Some(i) => Some(i),
        None => longest_prefix(val, langs, langs.len() as int),
    }
}

/// The locale chosen from the variables' values, in order: the first set
/// variable that selects a locale decides; English otherwise.
pub open spec fn spec_detect(vars: Seq<Option<String>>, langs: Seq<&'static str>) -> Seq<char>
    decreases vars.len(),
{
    if vars.len() == 0 {
        "en"@
    } else {
        match vars[0] {
            Some(v) => match spec_pick(v@, langs) {
                Some(i) => langs[i]@,
                None => spec_detect(vars.skip(1), langs),
            },
            None => spec_detect(vars.skip(1), langs),
        }
    }
}

fn normalized(s: &str) -> (r: String)
    ensures
        r@ == norm(s@),
{
    let n = s.unicode_len();
    let mut out = String::new();
    let mut i: usize = 0;
    while i < n
        invariant
            n == s@.len(),
            i <= n,
            out@ == norm(s@.take(i as int)),
        decreases n - i,
    {
        let c = s.get_char(i);
        let d = if 'A' <= c && c <= 'Z' {
            let code = (c as u32) + 32;
            assert(code <= 0x7a);
            char_of_ascii(code)
        } else if c == '_' {
            '-'
        } else {
            c
        };
        assert(d == norm_char(c));
        push_char(&mut out, d);
        assert(norm(s@.take(i + 1)) =~= norm(s@.take(i as int)).push(norm_char(c)));
        i = i + 1;
    }
    assert(s@.take(n as int) =~= s@);
    out
}

fn char_of_ascii(code: u32) -> (r: char)
    requires
        0x61 <= code <= 0x7a,
    ensures
        r == code as char,
{
    let b = code as u8;
    b as char
}

/// Whether `lang` is a more general locale than `val` (both normalized
/// already).
fn prefix_locale(v: &str, l: &str) -> (r: bool)
    ensures
        r == {
            &&& v@.len() > l@.len()
            &&& v@.take(l@.len() as int) == l@
            &&& (v@[l@.len() as int] == '-' || v@[l@.len() as int] == '.' || v@[l@.len() as int] == '@')
        },
{
    let vn = v.unicode_len();
    let ln = l.unicode_len();
    if vn <= ln {
        return false;
    }
    let mut i: usize = 0;
    while i < ln
        invariant
            vn == v@.len(),
            ln == l@.len(),
            ln < vn,
            i <= ln,
            forall|k: int| 0 <= k < i ==> v@[k] == l@[k],
        decreases ln - i,
    {
        if v.get_char(i) != l.get_char(i) {
            assert(v@.take(ln as int)[i as int] != l@[i as int]);
            return false;
        }
        i = i + 1;
    }
    assert(v@.take(ln as int) =~= l@);
    let c = v.get_char(ln);
    c == '-' || c == '.' || c == '@'
}

/// The locale one variable's value selects among `langs`.
fn pick(val: &str, langs: &[&'static str]) -> (r: Option<usize>)
    ensures
        r matches Some(k) ==> k < langs@.len() && spec_pick(val@, langs@) == Some(k as int),
        r is None <==> spec_pick(val@, langs@) is None,
{
    let v = normalized(val);
    let mut i: usize = 0;
    while i < langs.len()
        invariant
            i <= langs@.len(),
            v@ == norm(val@),
            exact_match(val@, langs@, i as int) is None,
        decreases langs@.len() - i,
    {
        let l = normalized(langs[i]);
        if str_eq(v.as_str(), l.as_str()) {
            assert(exact_match(val@, langs@, i + 1) == Some(i as int));
            proof {
                lemma_exact_stable(val@, langs@, i + 1, langs@.len() as int);
            }
            assert(spec_pick(val@, langs@) == Some(i as int));
            return Some(i);
        }
        i = i + 1;
    }
    let mut best: Option<usize> = None;
    let mut j: usize = 0;
    while j < langs.len()
        invariant
            j <= langs@.len(),
            v@ == norm(val@),
            exact_match(val@, langs@, langs@.len() as int) is None,
            match longest_prefix(val@, langs@, j as int) {
                Some(k) => 0 <= k < j && best == Some(k as usize),
                None => best is None,
            },
        decreases langs@.len() - j,
    {
        proof {
            lemma_longest_in_range(val@, langs@, j as int);
        }
        let ghost before = longest_prefix(val@, langs@, j as int);
        let l = normalized(langs[j]);
        assert(langs[j as int] == langs@[j as int]);
        if prefix_locale(v.as_str(), l.as_str()) {
            let longer = match best {
                None => true,
                Some(b) => langs[j].len() > langs[b].len(),
            };
            if longer {
                best = Some(j);
            }
        }
        assert(longest_prefix(val@, langs@, j + 1) == (if is_prefix_locale(val@, langs@[j as int]@) && match before {
            None => true,
            Some(i) => langs@[j as int].len() > langs@[i].len(),
        } {
            Some(j as int)
        } else {
            before
        }));
        j = j + 1;
    }
    assert(exact_match(val@, langs@, langs@.len() as int) is None);
    assert(j == langs@.len());
    best
}

proof fn lemma_exact_in_range(val: Seq<char>, langs: Seq<&'static str>, n: int)
    ensures
        exact_match(val, langs, n) matches Some(k) ==> 0 <= k < n,
    decreases n,
{
    if n > 0 {
        lemma_exact_in_range(val, langs, n - 1);
    }
}

proof fn lemma_longest_in_range(val: Seq<char>, langs: Seq<&'static str>, n: int)
    ensures
        longest_prefix(val, langs, n) matches Some(k) ==> 0 <= k < n,
    decreases n,
{
    if n > 0 {
        lemma_longest_in_range(val, langs, n - 1);
    }
}

/// Once a match is found among the first `i` locales, looking further
/// finds the same one.
proof fn lemma_exact_stable(val: Seq<char>, langs: Seq<&'static str>, i: int, n: int)
    requires
        0 <= i <= n,
        exact_match(val, langs, i) is Some,
    ensures
        exact_match(val, langs, n) == exact_match(val, langs, i),
    decreases n - i,
{
    if n > i {
        lemma_exact_stable(val, langs, i, n - 1);
    }
}

/// Picks the user-interface locale from the values of `LC_ALL`,
/// `LC_MESSAGES` and `LANG` (in that order; `None` for an unset variable):
/// the first set variable that matches a locale decides, an exact match
/// (ignoring case and `_`/`-`) first, else the longest available locale
/// the value refines (`en-us.utf-8` prefers `en-us` over `en`); English
/// when none does.
pub fn detect_locale(vars: &[Option<String>], available_locales: &[&'static str]) -> (r: &'static str)
    ensures
        r@ == spec_detect(vars@, available_locales@),
{
    let mut i: usize = 0;
    assert(vars@.skip(0) =~= vars@);
    while i < vars.len()
        invariant
            i <= vars@.len(),
            spec_detect(vars@.skip(i as int), available_locales@) == spec_detect(vars@, available_locales@),
        decreases vars@.len() - i,
    {
        assert(vars@.skip(i as int)[0] == vars@[i as int]);
        assert(vars@.skip(i as int).skip(1) =~= vars@.skip(i + 1));
        match &vars[i] {
            Some(v) => {
                match pick(v.as_str(), available_locales) {
                    Some(k) => {
                        proof {
                            lemma_exact_in_range(v@, available_locales@, available_locales@.len() as int);
                            lemma_longest_in_range(v@, available_locales@, available_locales@.len() as int);
                        }
                        assert(vars@.skip(i as int).len() > 0);
                        assert(vars@[i as int] == Some(*v));
                        assert(spec_pick(v@, available_locales@) == Some(k as int));
                        assert(spec_detect(vars@.skip(i as int), available_locales@)
                            == available_locales@[k as int]@);
                        return available_locales[k];
                    },
                    None => {},
                }
            },
            None => {},
        }
        i = i + 1;
    }
    assert(vars@.skip(i as int) =~= Seq::<Option<String>>::empty());
    proof {
        reveal_strlit("en");
    }
    "en"
}

} // verus!
