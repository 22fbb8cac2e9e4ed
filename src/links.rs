use vstd::prelude::*;

use crate::config::{parse_url, parsed_url};

verus! {

/// A character of the Unicode White_Space property.
pub open spec fn is_white_space(c: char) -> bool {
    let v = c as u32;
    (9 <= v <= 13) || v == 0x20 || v == 0x85 || v == 0xa0 || v == 0x1680 || (0x2000 <= v
        <= 0x200a) || v == 0x2028 || v == 0x2029 || v == 0x202f || v == 0x205f || v == 0x3000
}

/// `s[a..b]` is `s` without its leading and trailing white space; an
/// all-white string keeps nothing, from its end.
pub open spec fn trim_bounds(s: Seq<char>, a: int, b: int) -> bool {
    &&& 0 <= a <= b <= s.len()
    &&& forall|i: int| 0 <= i < a ==> is_white_space(#[trigger] s[i])
    &&& forall|i: int| b <= i < s.len() ==> is_white_space(#[trigger] s[i])
    &&& a < b ==> !is_white_space(s[a]) && !is_white_space(s[b - 1])
    &&& a == b ==> a == s.len()
}

/// `s` with its leading and trailing white space removed.
pub open spec fn trim_of(s: Seq<char>) -> Seq<char> {
    let p = choose|p: (int, int)| #[trigger] trim_bounds(s, p.0, p.1);
    s.subrange(p.0, p.1)
}

/// The bounds of a trim are unique.
pub proof fn lemma_trim_unique(s: Seq<char>, a1: int, b1: int, a2: int, b2: int)
    requires
        trim_bounds(s, a1, b1),
        trim_bounds(s, a2, b2),
    ensures
        a1 == a2 && b1 == b2,
{
    if a1 < a2 {
        assert(is_white_space(s[a1]));
    }
    if a2 < a1 {
        assert(is_white_space(s[a2]));
    }
    if b1 < b2 {
        assert(is_white_space(s[b2 - 1]));
    }
    if b2 < b1 {
        assert(is_white_space(s[b1 - 1]));
    }
}

fn white_space(c: char) -> (r: bool)
    ensures
        r == is_white_space(c),
{
    let v = c as u32;
    (9 <= v && v <= 13) || v == 0x20 || v == 0x85 || v == 0xa0 || v == 0x1680 || (0x2000 <= v
        && v <= 0x200a) || v == 0x2028 || v == 0x2029 || v == 0x202f || v == 0x205f || v == 0x3000
}

/// `s` with its leading and trailing white space removed, as `str::trim`
/// does it.
pub fn trim_text(s: &str) -> (r: String)
    ensures
        r@ == trim_of(s@),
{
    let chars = crate::text::chars_of(s);
    let n = chars.len();
    let mut a: usize = 0;
    while a < n && white_space(chars[a])
        invariant
            n == s@.len(),
            chars@ == s@,
            a <= n,
            forall|i: int| 0 <= i < a ==> is_white_space(#[trigger] s@[i]),
        decreases n - a,
    {
        a = a + 1;
    }
    let mut b: usize = n;
    while b > a && white_space(chars[b - 1])
        invariant
            n == s@.len(),
            chars@ == s@,
            a <= b <= n,
            forall|i: int| b <= i < n ==> is_white_space(#[trigger] s@[i]),
        decreases b - a,
    {
        b = b - 1;
    }
    proof {
        let w = (a as int, b as int);
        assert(trim_bounds(s@, w.0, w.1));
        assert(exists|q: (int, int)| #[trigger] trim_bounds(s@, q.0, q.1));
        let p = choose|p: (int, int)| #[trigger] trim_bounds(s@, p.0, p.1);
        lemma_trim_unique(s@, a as int, b as int, p.0, p.1);
    }
    s.substring_char(a, b).to_string()
}

pub open spec fn text_opt(o: Option<String>) -> Option<Seq<char>> {
    match o {
        Some(c) => Some(c@),
        None => None,
    }
}

/// Position of the first `#` in `s`.
pub open spec fn first_hash(s: Seq<char>) -> Option<int> {
    if exists|i: int| 0 <= i < s.len() && s[i] == '#' {
        Some(choose|i: int| 0 <= i < s.len() && s[i] == '#' && forall|j: int| 0 <= j < i ==> s[j] != '#')
    } else {
        None
    }
}

/// A trimmed line split at its first `#`: nothing for an empty line or a
/// comment line; else the part before the `#` and, when there is one, the
/// part after it.
pub open spec fn split_of(t: Seq<char>) -> Option<(Seq<char>, Option<Seq<char>>)> {
    if t.len() == 0 || t[0] == '#' {
        None
    } else {
        match first_hash(t) {
            Some(h) => Some((t.subrange(0, h), Some(t.subrange(h + 1, t.len() as int)))),
            None => Some((t, None)),
        }
    }
}

/// What one line of a link list holds: nothing for a blank line, a comment
/// line or an invalid URL; else the URL before the first `#` and the
/// comment after it, both trimmed.
pub open spec fn link_of(line: Seq<char>) -> Option<(Seq<char>, Option<Seq<char>>)> {
    match split_of(trim_of(line)) {
        None => None,
        Some((head, tail)) => {
            let url = trim_of(head);
            let comment = match tail {
                Some(c) => Some(trim_of(c)),
                None => None,
            };
            if parsed_url(url) is Some {
                Some((url, comment))
            } else {
                None
            }
        },
    }
}

fn find_hash(s: &Vec<char>) -> (r: Option<usize>)
    ensures
        match r {
            Some(h) => first_hash(s@) == Some(h as int) && h < s@.len(),
            None => first_hash(s@) is None,
        },
{
    let mut i: usize = 0;
    while i < s.len()
        invariant
            i <= s@.len(),
            forall|j: int| 0 <= j < i ==> s@[j] != '#',
        decreases s@.len() - i,
    {
        if s[i] == '#' {
            assert(forall|j: int| 0 <= j < i ==> s@[j] != '#');
            let ghost c = choose|k: int|
                0 <= k < s@.len() && s@[k] == '#' && forall|j: int| 0 <= j < k ==> s@[j] != '#';
            assert(c == i) by {
                if c < i {
                    assert(s@[c] != '#');
                }
                if c > i {
                    assert(s@[i as int] != '#');
                }
            }
            return Some(i);
        }
        i = i + 1;
    }
    None
}

/// Splits a trimmed line at its first `#`, as `split_of` says.
pub fn split_link(t: &str) -> (r: Option<(String, Option<String>)>)
    ensures
        match r {
            Some((head, tail)) => split_of(t@) == Some((head@, text_opt(tail))),
            None => split_of(t@) is None,
        },
{
    let chars = crate::text::chars_of(t);
    if chars.len() == 0 || chars[0] == '#' {
        return None;
    }
    match find_hash(&chars) {
        Some(h) => {
            let n = chars.len();
            let head = t.substring_char(0, h).to_string();
            let tail = t.substring_char(h + 1, n).to_string();
            Some((head, Some(tail)))
        },
        None => Some((t.to_string(), None)),
    }
}

/// Reads one line of a link list.
pub fn parse_link_line(line: &str) -> (r: Option<(String, Option<String>)>)
    ensures
        match r {
            Some((url, comment)) => link_of(line@) == Some((url@, text_opt(comment))),
            None => link_of(line@) is None,
        },
{
    let t = trim_text(line);
    match split_link(t.as_str()) {
        None => None,
        Some((head, tail)) => {
            let url = trim_text(head.as_str());
            let comment = match tail {
                Some(c) => Some(trim_text(c.as_str())),
                None => None,
            };
            match parse_url(url.as_str()) {
                Some(_) => Some((url, comment)),
                None => None,
            }
        },
    }
}

/// The links of the first `upto` lines, in order.
pub open spec fn links_of(lines: Seq<String>, upto: int) -> Seq<(Seq<char>, Option<Seq<char>>)>
    decreases upto,
{
    if upto <= 0 {
        Seq::empty()
    } else {
        let before = links_of(lines, upto - 1);
        match link_of(lines[upto - 1]@) {
            Some(l) => before.push(l),
            None => before,
        }
    }
}

pub open spec fn link_view(l: (String, Option<String>)) -> (Seq<char>, Option<Seq<char>>) {
    (l.0@, text_opt(l.1))
}

/// Reads every line of a link list, in order, keeping the valid links.
pub fn parse_links(lines: &Vec<String>) -> (r: Vec<(String, Option<String>)>)
    ensures
        r@.map_values(|l: (String, Option<String>)| link_view(l)) == links_of(
            lines@,
            lines@.len() as int,
        ),
{
    let mut r: Vec<(String, Option<String>)> = Vec::new();
    let mut i: usize = 0;
    while i < lines.len()
        invariant
            i <= lines@.len(),
            r@.map_values(|l: (String, Option<String>)| link_view(l)) == links_of(lines@, i as int),
        decreases lines@.len() - i,
    {
        match parse_link_line(lines[i].as_str()) {
            Some(link) => {
                let ghost before = r@;
                r.push(link);
                assert(r@.map_values(|l: (String, Option<String>)| link_view(l)) =~= before.map_values(
                    |l: (String, Option<String>)| link_view(l),
                ).push(link_view(link)));
            },
            None => {},
        }
        i = i + 1;
    }
    r
}

/// Relies on rand's `SliceRandom::shuffle` with the thread-local generator:
/// the same items, in an order drawn at random.
#[verifier::external_body]
fn shuffled<T>(v: Vec<T>) -> (r: Vec<T>)
    ensures
        r@.to_multiset() == v@.to_multiset(),
{
    let mut v = v;
    rand::seq::SliceRandom::shuffle(v.as_mut_slice(), &mut rand::thread_rng());
    v
}

/// The order in which the links are processed: as listed, or one uniform
/// shuffle of the whole list.
pub fn processing_order(links: Vec<(String, Option<String>)>, random: bool) -> (r: Vec<
    (String, Option<String>),
>)
    ensures
        r@.to_multiset() == links@.to_multiset(),
        !random ==> r@ == links@,
{
    if random {
        shuffled(links)
    } else {
        links
    }
}

} // verus!
