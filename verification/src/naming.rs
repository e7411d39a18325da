//! Naming rules: kebab-case names, slugs derived from a decision's
//! choice, and the first free decision name for a slug.
use vstd::prelude::*;
use crate::error::Error;
use crate::namemap::{NameMap, Named};
use crate::text::{
    ascii_lower, chars_of, decimal, is_alnum, is_ascii_alnum, is_ascii_lower_alnum,
    lemma_decimal_injective, lemma_decimal_nonempty, push_char, push_decimal, to_ascii_lower,
};

verus! {

/// Lower-case ASCII letters and digits in runs joined by single hyphens.
pub open spec fn is_kebab(s: Seq<char>) -> bool {
    &&& s.len() > 0
    &&& forall|i: int| 0 <= i < s.len() ==> is_ascii_lower_alnum(#[trigger] s[i]) || s[i] == '-'
    &&& s[0] != '-'
    &&& s.last() != '-'
    &&& forall|i: int| 0 <= i < s.len() - 1 ==> !(#[trigger] s[i] == '-' && s[i + 1] == '-')
}

/// Is `s` a valid kebab-case name?
pub fn is_valid_kebab_case(s: &str) -> (r: bool)
    ensures
        r == is_kebab(s@),
{
    let cs = chars_of(s);
    let n = cs.len();
    if n == 0 {
        return false;
    }
    if cs[0] == '-' || cs[n - 1] == '-' {
        return false;
    }
    for i in 0..n
        invariant
            n == s@.len(),
            cs@ == s@,
            forall|j: int| 0 <= j < i ==> is_ascii_lower_alnum(#[trigger] s@[j]) || s@[j] == '-',
            forall|j: int| 0 <= j < i && j < n - 1 ==> !(#[trigger] s@[j] == '-' && s@[j + 1] == '-'),
    {
        let c = cs[i];
        let ok = (c >= 'a' && c <= 'z') || (c >= '0' && c <= '9') || c == '-';
        if !ok {
            return false;
        }
        if c == '-' && i + 1 < n && cs[i + 1] == '-' {
            assert(s@[i as int] == '-' && s@[i + 1] == '-');
            return false;
        }
    }
    true
}

// ── Slugs ───────────────────────────────────────────────────────────────

/// Reading `s` left to right: the slug so far, and whether a separator
/// was seen since its last character.
pub open spec fn slug_state(s: Seq<char>) -> (Seq<char>, bool)
    decreases s.len(),
{
    if s.len() == 0 {
        (Seq::empty(), false)
    } else {
        let prev = slug_state(s.drop_last());
        let c = s.last();
        if is_ascii_alnum(c) {
            let base = if prev.1 && prev.0.len() > 0 {
                prev.0.push('-')
            } else {
                prev.0
            };
            (base.push(ascii_lower(c)), false)
        } else {
            (prev.0, true)
        }
    }
}

/// The slug of a text: its runs of ASCII letters and digits, lower-cased
/// and joined by single hyphens.
pub open spec fn slug(s: Seq<char>) -> Seq<char> {
    slug_state(s).0
}

/// Derives a file-name slug from a decision's choice.
pub fn slugify(text: &str) -> (r: String)
    ensures
        r@ == slug(text@),
{
    let cs = chars_of(text);
    let mut out = String::new();
    let mut pending = false;
    let mut nonempty = false;
    for i in 0..cs.len()
        invariant
            cs@ == text@,
            out@ == slug_state(text@.take(i as int)).0,
            pending == slug_state(text@.take(i as int)).1,
            nonempty == (out@.len() > 0),
    {
        let c = cs[i];
        assert(text@.take(i + 1).drop_last() =~= text@.take(i as int));
        if is_alnum(c) {
            if pending && nonempty {
                push_char(&mut out, '-');
            }
            push_char(&mut out, to_ascii_lower(c));
            pending = false;
            nonempty = true;
        } else {
            pending = true;
        }
    }
    assert(text@.take(cs.len() as int) =~= text@);
    out
}

proof fn lemma_lower_of_alnum(c: char)
    requires
        is_ascii_alnum(c),
    ensures
        is_ascii_lower_alnum(ascii_lower(c)),
{
}

/// A non-empty slug is a valid kebab-case name.
pub proof fn lemma_slug_is_kebab(s: Seq<char>)
    ensures
        slug(s).len() == 0 || is_kebab(slug(s)),
    decreases s.len(),
{
    if s.len() > 0 {
        lemma_slug_is_kebab(s.drop_last());
        let prev = slug_state(s.drop_last());
        let c = s.last();
        if is_ascii_alnum(c) {
            lemma_lower_of_alnum(c);
            let base = if prev.1 && prev.0.len() > 0 {
                prev.0.push('-')
            } else {
                prev.0
            };
            let r = base.push(ascii_lower(c));
            assert(r == slug(s));
            assert forall|i: int| 0 <= i < r.len() implies is_ascii_lower_alnum(#[trigger] r[i]) || r[i] == '-' by {
                if i < prev.0.len() {
                    assert(r[i] == prev.0[i]);
                }
            }
            assert forall|i: int| 0 <= i < r.len() - 1 implies !(#[trigger] r[i] == '-' && r[i + 1] == '-') by {
                if i + 1 < prev.0.len() {
                    assert(r[i] == prev.0[i] && r[i + 1] == prev.0[i + 1]);
                } else if i + 1 == prev.0.len() {
                    assert(r[i] == prev.0.last());
                }
            }
            if prev.0.len() > 0 {
                assert(r[0] == prev.0[0]);
            }
        }
    }
}

/// The ASCII letters and digits of a text, lower-cased, in order.
pub open spec fn alnum_lowered(s: Seq<char>) -> Seq<char> {
    s.filter(|c: char| is_ascii_alnum(c)).map_values(|c: char| ascii_lower(c))
}

/// A text without its hyphens.
pub open spec fn without_hyphens(s: Seq<char>) -> Seq<char> {
    s.filter(|c: char| c != '-')
}

/// A slug keeps every ASCII letter and digit of the text, lower-cased and
/// in order, and adds nothing but hyphens.
pub proof fn lemma_slug_keeps_letters_and_digits(s: Seq<char>)
    ensures
        without_hyphens(slug(s)) == alnum_lowered(s),
    decreases s.len(),
{
    reveal(Seq::filter);
    if s.len() > 0 {
        let t = s.drop_last();
        let c = s.last();
        lemma_slug_keeps_letters_and_digits(t);
        let prev = slug_state(t);
        let pa = |x: char| is_ascii_alnum(x);
        let ph = |x: char| x != '-';
        let lo = |x: char| ascii_lower(x);
        assert(s.drop_last() == t);
        if is_ascii_alnum(c) {
            lemma_lower_of_alnum(c);
            let base = if prev.1 && prev.0.len() > 0 {
                prev.0.push('-')
            } else {
                prev.0
            };
            assert(base.push(ascii_lower(c)).drop_last() =~= base);
            assert(without_hyphens(base.push(ascii_lower(c))) == without_hyphens(base).push(ascii_lower(c)));
            if prev.1 && prev.0.len() > 0 {
                assert(prev.0.push('-').drop_last() =~= prev.0);
                assert(without_hyphens(base) == without_hyphens(prev.0));
            }
            assert(s.filter(pa) == t.filter(pa).push(c));
            assert(t.filter(pa).push(c).map_values(lo) =~= t.filter(pa).map_values(lo).push(ascii_lower(c)));
        } else {
            assert(s.filter(pa) == t.filter(pa));
        }
    }
}

proof fn lemma_slug_of_kebab_prefix(s: Seq<char>, i: int)
    requires
        is_kebab(s),
        0 <= i <= s.len(),
    ensures
        slug_state(s.take(i)) == (if i > 0 && s[i - 1] == '-' {
            (s.take(i - 1), true)
        } else {
            (s.take(i), false)
        }),
    decreases i,
{
    if i > 0 {
        lemma_slug_of_kebab_prefix(s, i - 1);
        let t = s.take(i);
        assert(t.drop_last() =~= s.take(i - 1));
        assert(t.last() == s[i - 1]);
        let c = s[i - 1];
        assert(is_ascii_lower_alnum(c) || c == '-');
        if c == '-' {
            assert(i - 1 > 0);
            assert(!(s[i - 2] == '-' && s[i - 1] == '-'));
        } else {
            assert(ascii_lower(c) == c);
            if i >= 2 && s[i - 2] == '-' {
                if i - 2 == 0 {
                    assert(s[0] == '-');
                }
                assert(s.take(i - 2).push('-') =~= s.take(i - 1));
            }
            assert(s.take(i - 1).push(c) =~= t);
        }
    }
}

/// A kebab-case text is its own slug (so a name such as `use-oauth2`
/// yields that very name).
pub proof fn lemma_slug_of_kebab(s: Seq<char>)
    requires
        is_kebab(s),
    ensures
        slug(s) == s,
{
    lemma_slug_of_kebab_prefix(s, s.len() as int);
    assert(s.take(s.len() as int) =~= s);
}

// ── Unique decision names ───────────────────────────────────────────────

/// The `k`-th name tried for `base`: `base`, then `base-2`, `base-3`, ...
pub open spec fn candidate(base: Seq<char>, k: nat) -> Seq<char> {
    if k <= 1 {
        base
    } else {
        base.push('-') + decimal(k)
    }
}

/// `k` is the first index whose candidate is not yet taken in `m`.
pub open spec fn first_free<T>(m: NameMap<T>, base: Seq<char>, k: nat) -> bool {
    &&& k >= 1
    &&& !m.has(candidate(base, k))
    &&& forall|j: nat| 1 <= j < k ==> #[trigger] m.has(candidate(base, j))
}

proof fn lemma_candidate_injective(base: Seq<char>, a: nat, b: nat)
    requires
        1 <= a,
        1 <= b,
        a != b,
    ensures
        candidate(base, a) != candidate(base, b),
{
    lemma_decimal_nonempty(a);
    lemma_decimal_nonempty(b);
    if a >= 2 && b >= 2 {
        lemma_decimal_injective(a, b);
        let n: int = base.len() as int + 1;
        if candidate(base, a) == candidate(base, b) {
            assert(candidate(base, a).subrange(n, candidate(base, a).len() as int) =~= decimal(a));
            assert(candidate(base, b).subrange(n, candidate(base, b).len() as int) =~= decimal(b));
        }
    } else if a >= 2 {
        assert(candidate(base, a).len() > candidate(base, b).len());
    } else {
        assert(candidate(base, b).len() > candidate(base, a).len());
    }
}

/// If the first `k` candidates are all taken, the map holds at least `k` names.
proof fn lemma_taken_candidates_bound<T>(m: NameMap<T>, base: Seq<char>, k: nat)
    requires
        forall|j: nat| 1 <= j <= k ==> #[trigger] m.has(candidate(base, j)),
    ensures
        k <= m.entries@.len(),
{
    broadcast use vstd::seq_lib::seq_to_set_is_finite;

    let cs = Seq::new(k, |i: int| candidate(base, (i + 1) as nat));
    let names = m.entries@.map_values(|e: Named<T>| e.name@);
    assert forall|a: int, b: int| 0 <= a < cs.len() && 0 <= b < cs.len() && a != b implies cs[a] != cs[b] by {
        lemma_candidate_injective(base, (a + 1) as nat, (b + 1) as nat);
    }
    assert(cs.no_duplicates());
    cs.unique_seq_to_set();
    names.lemma_cardinality_of_set();
    assert forall|x: Seq<char>| cs.to_set().contains(x) implies names.to_set().contains(x) by {
        let i = choose|i: int| 0 <= i < cs.len() && cs[i] == x;
        assert(m.has(candidate(base, (i + 1) as nat)));
        let j = choose|j: int| 0 <= j < m.entries@.len() && #[trigger] m.entries@[j].name@ == x;
        assert(names[j] == x);
    }
    vstd::set_lib::lemma_len_subset(cs.to_set(), names.to_set());
}

proof fn lemma_decimal_digits(n: nat)
    ensures
        forall|i: int| 0 <= i < decimal(n).len() ==> '0' <= #[trigger] decimal(n)[i] && decimal(n)[i] <= '9',
    decreases n,
{
    lemma_decimal_nonempty(n);
    if n >= 10 {
        lemma_decimal_digits(n / 10);
        assert forall|i: int| 0 <= i < decimal(n).len() implies '0' <= #[trigger] decimal(n)[i] && decimal(n)[i] <= '9' by {
            if i < decimal(n / 10).len() {
                assert(decimal(n)[i] == decimal(n / 10)[i]);
            }
        }
    }
}

/// Every candidate of a kebab-case base is kebab-case.
pub proof fn lemma_candidate_is_kebab(base: Seq<char>, k: nat)
    requires
        is_kebab(base),
    ensures
        is_kebab(candidate(base, k)),
{
    if k >= 2 {
        lemma_decimal_digits(k);
        lemma_decimal_nonempty(k);
        let d = decimal(k);
        let c = candidate(base, k);
        let n = base.len() as int;
        assert(c.len() == n + 1 + d.len());
        assert forall|i: int| 0 <= i < c.len() implies is_ascii_lower_alnum(#[trigger] c[i]) || c[i] == '-' by {
            if i < n {
                assert(c[i] == base[i]);
            } else if i > n {
                assert(c[i] == d[i - n - 1]);
            }
        }
        assert forall|i: int| 0 <= i < c.len() - 1 implies !(#[trigger] c[i] == '-' && c[i + 1] == '-') by {
            if i + 1 < n {
                assert(c[i] == base[i] && c[i + 1] == base[i + 1]);
            } else if i + 1 == n {
                assert(c[i] == base[n - 1]);
            } else if i == n {
                assert(c[i + 1] == d[0]);
            } else {
                assert(c[i] == d[i - n - 1]);
            }
        }
        assert(c[0] == base[0]);
        assert(c.last() == d.last());
    }
}

/// The text of the error for a choice that yields no name.
pub open spec fn empty_name_message() -> Seq<char> {
    "the choice does not yield a decision name (it has no letters or digits)"@
}

/// The first free decision name derived from `base`: `base` itself, or
/// `base-2`, `base-3`, ... An empty `base` is refused.
pub fn unique_decision_stem<T>(decisions: &NameMap<T>, base: &str) -> (r: Result<String, Error>)
    ensures
        base@.len() == 0 <==> r is Err,
        r matches Err(e) ==> e matches Error::Validation(m) && m@ == empty_name_message(),
        r matches Ok(s) ==> exists|k: nat| first_free(*decisions, base@, k) && s@ == candidate(base@, k),
{
    if base.unicode_len() == 0 {
        let mut m = String::new();
        m.append("the choice does not yield a decision name (it has no letters or digits)");
        return Err(Error::Validation(m));
    }
    if !decisions.contains_key(base) {
        let s = String::from_str(base);
        assert(first_free(*decisions, base@, 1));
        return Ok(s);
    }
    let n = decisions.len();
    let mut k: u128 = 2;
    loop
        invariant
            n == decisions.entries@.len(),
            base@.len() > 0,
            2 <= k,
            forall|j: nat| 1 <= j < k ==> #[trigger] decisions.has(candidate(base@, j)),
        decreases n + 2 - k,
    {
        proof {
            lemma_taken_candidates_bound(*decisions, base@, (k - 1) as nat);
        }
        let mut s = String::from_str(base);
        push_char(&mut s, '-');
        push_decimal(&mut s, k);
        assert(s@ == candidate(base@, k as nat));
        if !decisions.contains_key(s.as_str()) {
            assert(first_free(*decisions, base@, k as nat));
            return Ok(s);
        }
        proof {
            assert forall|j: nat| 1 <= j < k + 1 implies #[trigger] decisions.has(candidate(base@, j)) by {
                if j < k {
                    assert(decisions.has(candidate(base@, j)));
                }
            }
            lemma_taken_candidates_bound(*decisions, base@, k as nat);
        }
        k = k + 1;
    }
}

} // verus!
