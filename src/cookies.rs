use vstd::prelude::*;

use crate::models::Cookie;
use crate::text::{ends_with_seq, ends_with_str, same_text};

verus! {

/// A cookie stored for `cookie_domain` belongs to `target` when either
/// name is a suffix of the other.
pub open spec fn domains_overlap(target: Seq<char>, cookie_domain: Seq<char>) -> bool {
    ends_with_seq(target, cookie_domain) || ends_with_seq(cookie_domain, target)
}

pub open spec fn applies(target: Seq<char>, domain: Option<String>) -> bool {
    match domain {
        Some(d) => domains_overlap(target, d@),
        None => false,
    }
}

/// The indices below `upto` of the cookies that belong to `target`.
pub open spec fn matching(cookies: Seq<Cookie>, target: Seq<char>, upto: int) -> Seq<usize>
    decreases upto,
{
    if upto <= 0 {
        Seq::empty()
    } else {
        let before = matching(cookies, target, upto - 1);
        if applies(target, cookies[upto - 1].domain) {
            before.push((upto - 1) as usize)
        } else {
            before
        }
    }
}

/// Whether a cookie with this domain belongs to `target`.
pub fn cookie_applies(target: &str, domain: &Option<String>) -> (r: bool)
    ensures
        r == applies(target@, *domain),
{
    match domain {
        Some(d) => ends_with_str(target, d.as_str()) || ends_with_str(d.as_str(), target),
        None => false,
    }
}

/// The indices of the cookies that belong to `target`, in order.
pub fn cookies_for_domain(cookies: &Vec<Cookie>, target: &str) -> (r: Vec<usize>)
    ensures
        r@ == matching(cookies@, target@, cookies@.len() as int),
{
    let mut r: Vec<usize> = Vec::new();
    let mut i: usize = 0;
    while i < cookies.len()
        invariant
            i <= cookies@.len(),
            r@ == matching(cookies@, target@, i as int),
        decreases cookies@.len() - i,
    {
        if cookie_applies(target, &cookies[i].domain) {
            r.push(i);
        }
        i = i + 1;
    }
    r
}

/// The browser holds a cookie of this name for `target`.
pub open spec fn present(current: Seq<(String, Option<String>)>, name: Seq<char>, target: Seq<char>) -> bool {
    exists|j: int|
        0 <= j < current.len() && #[trigger] current[j].0@ == name && applies(target, current[j].1)
}

/// Every stored cookie that belongs to `target` is held by the browser
/// (`current` lists the browser's cookies as name and domain), matched by
/// name and by domain.
pub fn has_expected_cookies(
    expected: &Vec<Cookie>,
    current: &Vec<(String, Option<String>)>,
    target: &str,
) -> (r: bool)
    ensures
        r == forall|k: int|
            0 <= k < expected@.len() && applies(target@, #[trigger] expected@[k].domain) ==> present(
                current@,
                expected@[k].name@,
                target@,
            ),
{
    let mut k: usize = 0;
    while k < expected.len()
        invariant
            k <= expected@.len(),
            forall|m: int|
                0 <= m < k && applies(target@, #[trigger] expected@[m].domain) ==> present(
                    current@,
                    expected@[m].name@,
                    target@,
                ),
        decreases expected@.len() - k,
    {
        if cookie_applies(target, &expected[k].domain) {
            let mut found = false;
            let mut j: usize = 0;
            while j < current.len()
                invariant
                    k < expected@.len(),
                    j <= current@.len(),
                    found ==> present(current@, expected@[k as int].name@, target@),
                    !found ==> forall|m: int|
                        0 <= m < j ==> !(#[trigger] current@[m].0@ == expected@[k as int].name@
                            && applies(target@, current@[m].1)),
                decreases current@.len() - j,
            {
                if !found && same_text(current[j].0.as_str(), expected[k].name.as_str())
                    && cookie_applies(target, &current[j].1) {
                    found = true;
                }
                j = j + 1;
            }
            if !found {
                assert forall|m: int| 0 <= m < current@.len() implies !(#[trigger] current@[m].0@
                    == expected@[k as int].name@ && applies(target@, current@[m].1)) by {}
                assert(!present(current@, expected@[k as int].name@, target@));
                return false;
            }
        }
        k = k + 1;
    }
    true
}

} // verus!
