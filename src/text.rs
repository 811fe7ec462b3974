use vstd::prelude::*;

verus! {

/// Whether `s` starts with `p`.
pub open spec fn has_prefix(s: Seq<char>, p: Seq<char>) -> bool {
    p.len() <= s.len() && s.subrange(0, p.len() as int) == p
}

/// `s` without its prefix `p`, where `s` starts with `p`.
pub fn strip_prefix<'a>(s: &'a str, p: &str) -> (r: Option<&'a str>)
    ensures
        match r {
            Some(rest) => has_prefix(s@, p@) && rest@ == s@.subrange(p@.len() as int, s@.len() as int),
            None => !has_prefix(s@, p@),
        },
{
    let n = s.unicode_len();
    let m = p.unicode_len();
    if m > n {
        return None;
    }
    let mut k: usize = 0;
    while k < m
        invariant
            m == p@.len(),
            n == s@.len(),
            m <= n,
            k <= m,
            forall|j: int| 0 <= j < k ==> s@[j] == p@[j],
        decreases m - k,
    {
        if s.get_char(k) != p.get_char(k) {
            proof {
                assert(s@.subrange(0, m as int)[k as int] != p@[k as int]);
            }
            return None;
        }
        k = k + 1;
    }
    assert(s@.subrange(0, m as int) =~= p@);
    Some(s.substring_char(m, n))
}

/// Whether `"://"` starts at index `i` of `s`.
pub open spec fn scheme_separator_at(s: Seq<char>, i: int) -> bool {
    0 <= i && i + 3 <= s.len() && s[i] == ':' && s[i + 1] == '/' && s[i + 2] == '/'
}

/// The index of the first `"://"` in `s`, if any.
pub open spec fn first_scheme_separator(s: Seq<char>) -> Option<int> {
    if exists|i: int| #[trigger] scheme_separator_at(s, i) {
        Some(
            choose|i: int|
                #[trigger] scheme_separator_at(s, i) && forall|j: int|
                    0 <= j < i ==> !scheme_separator_at(s, j),
        )
    } else {
        None
    }
}

proof fn lemma_first_separator(s: Seq<char>, i: int)
    requires
        scheme_separator_at(s, i),
        forall|j: int| 0 <= j < i ==> !scheme_separator_at(s, j),
    ensures
        first_scheme_separator(s) == Some(i),
{
    let k = choose|k: int|
        #[trigger] scheme_separator_at(s, k) && forall|j: int| 0 <= j < k ==> !scheme_separator_at(s, j);
    assert(scheme_separator_at(s, i) && forall|j: int| 0 <= j < i ==> !scheme_separator_at(s, j));
    if k < i {
        assert(!scheme_separator_at(s, k));
    } else if k > i {
        assert(!scheme_separator_at(s, i));
    }
}

/// Splits a URI into its scheme and the rest at the first `"://"`.
pub fn parse_registry_arg(registry: &str) -> (r: Result<(&str, &str), &'static str>)
    ensures
        match r {
            Ok((scheme, path)) => first_scheme_separator(registry@) is Some && {
                let i = first_scheme_separator(registry@).unwrap();
                scheme@ == registry@.subrange(0, i) && path@ == registry@.subrange(
                    i + 3,
                    registry@.len() as int,
                )
            },
            Err(e) => first_scheme_separator(registry@) is None && e@ == "No URI scheme provided"@,
        },
{
    let n = registry.unicode_len();
    let mut i: usize = 0;
    while n >= 3 && i <= n - 3
        invariant
            n == registry@.len(),
            n >= 3 ==> i <= n - 2,
            forall|j: int| 0 <= j < i ==> !scheme_separator_at(registry@, j),
        decreases n - i,
    {
        if registry.get_char(i) == ':' && registry.get_char(i + 1) == '/' && registry.get_char(i + 2)
            == '/' {
            proof {
                lemma_first_separator(registry@, i as int);
            }
            return Ok((registry.substring_char(0, i), registry.substring_char(i + 3, n)));
        }
        i = i + 1;
    }
    proof {
        assert forall|j: int| !(#[trigger] scheme_separator_at(registry@, j)) by {
            if j >= i as int {
                assert(!(j + 3 <= n as int));
            }
        }
    }
    Err("No URI scheme provided")
}

} // verus!
