//! The route table: maps an HTTP method and path to the action of the
//! application, with a permanent redirect to the collection path for
//! anything unmatched.
//!
//! Paths are parameterized by an integer item id written in decimal, with
//! an optional leading minus sign; a path whose id segment is not such a
//! number, or does not fit a 64-bit signed integer, is unmatched.

use vstd::prelude::*;
use vstd::string::*;

verus! {

/// The HTTP verbs the table distinguishes; anything else is `Other`.
#[derive(Clone, Copy, Debug, PartialEq, Eq, Structural)]
pub enum Method {
    Get,
    Post,
    Put,
    Delete,
    Other,
}

/// What a request asks the application to do.
#[derive(Clone, Copy, Debug, PartialEq, Eq)]
pub enum Action {
    /// List all items, optionally marking one for inline editing.
    List { active: Option<i64> },
    /// Create an item from the submitted description.
    Create,
    /// Set the description of one item.
    Update { id: i64 },
    /// Remove one item.
    Delete { id: i64 },
    /// Set or clear the done flag of one item.
    SetDone { id: i64, done: bool },
    /// The path matched a route, the verb did not.
    MethodNotAllowed,
    /// The path matched nothing: redirect permanently to the collection.
    Redirect,
}

/// Whether `c` is a decimal digit.
pub open spec fn is_digit(c: char) -> bool {
    48 <= c as u32 <= 57
}

/// The value of a decimal digit.
pub open spec fn digit_val(c: char) -> int {
    c as u32 - 48
}

/// Whether every character of `s` is a decimal digit.
pub open spec fn all_digits(s: Seq<char>) -> bool {
    forall|i: int| 0 <= i < s.len() ==> is_digit(#[trigger] s[i])
}

/// The value of a digit string, most significant digit first.
pub open spec fn dec_val(s: Seq<char>) -> int
    decreases s.len(),
{
    if s.len() == 0 {
        0
    } else {
        dec_val(s.drop_last()) * 10 + digit_val(s.last())
    }
}

/// The id denoted by a path segment: a nonempty run of decimal digits,
/// optionally after a minus sign, whose value fits an `i64`; `None` for
/// anything else.
pub open spec fn spec_parse_id(s: Seq<char>) -> Option<i64> {
    if s.len() > 0 && s[0] == '-' {
        let digits = s.subrange(1, s.len() as int);
        if digits.len() > 0 && all_digits(digits) && -dec_val(digits) >= i64::MIN {
            Some((-dec_val(digits)) as i64)
        } else {
            None
        }
    } else if s.len() > 0 && all_digits(s) && dec_val(s) <= i64::MAX {
        Some(dec_val(s) as i64)
    } else {
        None
    }
}

proof fn lemma_dec_val_nonneg(s: Seq<char>)
    requires
        all_digits(s),
    ensures
        dec_val(s) >= 0,
    decreases s.len(),
{
    if s.len() > 0 {
        assert(all_digits(s.drop_last())) by {
            assert(forall|i: int| 0 <= i < s.len() - 1 ==> s.drop_last()[i] == s[i]);
        }
        lemma_dec_val_nonneg(s.drop_last());
    }
}

proof fn lemma_dec_val_mono(s: Seq<char>, m: int)
    requires
        all_digits(s),
        0 <= m <= s.len(),
    ensures
        dec_val(s.subrange(0, m)) <= dec_val(s),
    decreases s.len(),
{
    if m == s.len() {
        assert(s.subrange(0, m) =~= s);
    } else {
        let head = s.drop_last();
        assert(all_digits(head)) by {
            assert(forall|i: int| 0 <= i < head.len() ==> head[i] == s[i]);
        }
        lemma_dec_val_mono(head, m);
        assert(head.subrange(0, m) =~= s.subrange(0, m));
        lemma_dec_val_nonneg(head);
        assert(dec_val(head) <= dec_val(head) * 10 + digit_val(s.last()));
    }
}

/// Parses a path segment as an item id.
#[verifier::rlimit(100)]
pub fn parse_id(s: &str) -> (r: Option<i64>)
    ensures
        r == spec_parse_id(s@),
{
    let n = s.unicode_len();
    if n == 0 {
        return None;
    }
    let neg = s.get_char(0) == '-';
    let b: usize = if neg {
        1
    } else {
        0
    };
    if n == b {
        return None;
    }
    let ghost digits = s@.subrange(b as int, n as int);
    let limit: u64 = if neg {
        9223372036854775808
    } else {
        9223372036854775807
    };
    let mut acc: u64 = 0;
    let mut i: usize = b;
    while i < n
        invariant
            n == s@.len(),
            b <= i <= n,
            b < n,
            (b == 1 && s@[0] == '-' && neg) || (b == 0 && s@[0] != '-' && !neg),
            digits == s@.subrange(b as int, n as int),
            limit == (if neg {
                9223372036854775808u64
            } else {
                9223372036854775807u64
            }),
            all_digits(digits.subrange(0, i - b)),
            acc as int == dec_val(digits.subrange(0, i - b)),
            acc <= limit,
        decreases n - i,
    {
        let c = s.get_char(i);
        let cu = c as u32;
        proof {
            assert(digits[i - b] == s@[i as int]);
            assert(digits.subrange(0, i + 1 - b).drop_last() =~= digits.subrange(0, i - b));
            assert(digits.subrange(0, i + 1 - b).last() == digits[i - b]);
            if b == 0 {
                assert(digits =~= s@);
            }
        }
        if cu < 48 || cu > 57 {
            proof {
                assert(!is_digit(digits[i - b]));
                assert(!all_digits(digits));
            }
            return None;
        }
        let d: u64 = (cu - 48) as u64;
        let next: u128 = (acc as u128) * 10 + (d as u128);
        proof {
            let done = digits.subrange(0, i + 1 - b);
            assert forall|k: int| 0 <= k < done.len() implies is_digit(#[trigger] done[k]) by {
                if k < i - b {
                    assert(done[k] == digits.subrange(0, i - b)[k]);
                } else {
                    assert(done[k] == digits[i - b]);
                }
            }
            assert(dec_val(done) == acc as int * 10 + d);
        }
        if next > limit as u128 {
            proof {
                if all_digits(digits) {
                    lemma_dec_val_mono(digits, i + 1 - b);
                    assert(dec_val(digits) > limit as int);
                }
            }
            return None;
        }
        acc = next as u64;
        i = i + 1;
    }
    proof {
        assert(digits.subrange(0, n - b) =~= digits);
        if b == 0 {
            assert(digits =~= s@);
        }
    }
    if neg {
        let v: i64 = (-(acc as i128)) as i64;
        proof {
            assert(s@.subrange(1, n as int) == digits);
        }
        Some(v)
    } else {
        Some(acc as i64)
    }
}

/// Whether the characters of `s` from `from` to `to` spell exactly `lit`.
fn seg_eq(s: &str, from: usize, to: usize, lit: &str) -> (r: bool)
    requires
        from <= to <= s@.len(),
    ensures
        r == (s@.subrange(from as int, to as int) == lit@),
{
    let m = lit.unicode_len();
    if to - from != m {
        proof {
            assert(s@.subrange(from as int, to as int).len() != lit@.len());
        }
        return false;
    }
    let mut i: usize = 0;
    while i < m
        invariant
            m == lit@.len(),
            from <= to <= s@.len(),
            to - from == m,
            i <= m,
            forall|k: int| 0 <= k < i ==> s@[from + k] == lit@[k],
        decreases m - i,
    {
        if s.get_char(from + i) != lit.get_char(i) {
            proof {
                assert(s@.subrange(from as int, to as int)[i as int] != lit@[i as int]);
            }
            return false;
        }
        i = i + 1;
    }
    proof {
        assert(s@.subrange(from as int, to as int) =~= lit@);
    }
    true
}

/// The routing table over method and path:
/// GET `/todos` lists; POST `/todos` creates; on `/todos/{id}` GET lists
/// with that id marked for editing, POST and PUT update, DELETE deletes;
/// GET `/todos/{id}/done` and `/todos/{id}/undo` set and clear the done
/// flag; GET `/todos/{id}/delete` deletes; a matched path with another verb
/// is refused; every other path redirects to the collection.
pub open spec fn spec_route(m: Method, p: Seq<char>) -> Action {
    if p == "/todos"@ {
        match m {
            Method::Get => Action::List { active: None },
            Method::Post => Action::Create,
            _ => Action::MethodNotAllowed,
        }
    } else if p.len() > 7 && p.subrange(0, 7) == "/todos/"@ {
        let rest = p.subrange(7, p.len() as int);
        match spec_parse_id(rest) {
            Some(id) => match m {
                Method::Get => Action::List { active: Some(id) },
                Method::Post => Action::Update { id },
                Method::Put => Action::Update { id },
                Method::Delete => Action::Delete { id },
                _ => Action::MethodNotAllowed,
            },
            None => if rest.len() > 5 && rest.subrange(rest.len() - 5, rest.len() as int)
                == "/done"@ {
                match spec_parse_id(rest.subrange(0, rest.len() - 5)) {
                    Some(id) => match m {
                        Method::Get => Action::SetDone { id, done: true },
                        _ => Action::MethodNotAllowed,
                    },
                    None => Action::Redirect,
                }
            } else if rest.len() > 5 && rest.subrange(rest.len() - 5, rest.len() as int)
                == "/undo"@ {
                match spec_parse_id(rest.subrange(0, rest.len() - 5)) {
                    Some(id) => match m {
                        Method::Get => Action::SetDone { id, done: false },
                        _ => Action::MethodNotAllowed,
                    },
                    None => Action::Redirect,
                }
            } else if rest.len() > 7 && rest.subrange(rest.len() - 7, rest.len() as int)
                == "/delete"@ {
                match spec_parse_id(rest.subrange(0, rest.len() - 7)) {
                    Some(id) => match m {
                        Method::Get => Action::Delete { id },
                        _ => Action::MethodNotAllowed,
                    },
                    None => Action::Redirect,
                }
            } else {
                Action::Redirect
            },
        }
    } else {
        Action::Redirect
    }
}

/// Routes one request line to its action.
pub fn route(m: Method, path: &str) -> (r: Action)
    ensures
        r == spec_route(m, path@),
{
    proof {
        reveal_strlit("/todos");
        reveal_strlit("/todos/");
        reveal_strlit("/done");
        reveal_strlit("/undo");
        reveal_strlit("/delete");
    }
    let n = path.unicode_len();
    if n == 6 && seg_eq(path, 0, 6, "/todos") {
        proof {
            assert(path@.subrange(0, 6) =~= path@);
        }
        match m {
            Method::Get => Action::List { active: None },
            Method::Post => Action::Create,
            _ => Action::MethodNotAllowed,
        }
    } else if n > 7 && seg_eq(path, 0, 7, "/todos/") {
        proof {
            if path@ == "/todos"@ {
                assert(path@.len() == 6);
                assert(false);
            }
        }
        let rest = path.substring_char(7, n);
        let rn = rest.unicode_len();
        proof {
            assert(rest@ == path@.subrange(7, n as int));
        }
        if let Some(id) = parse_id(rest) {
            match m {
                Method::Get => Action::List { active: Some(id) },
                Method::Post => Action::Update { id },
                Method::Put => Action::Update { id },
                Method::Delete => Action::Delete { id },
                _ => Action::MethodNotAllowed,
            }
        } else if rn > 5 && seg_eq(rest, rn - 5, rn, "/done") {
            let head = rest.substring_char(0, rn - 5);
            match parse_id(head) {
                Some(id) => match m {
                    Method::Get => Action::SetDone { id, done: true },
                    _ => Action::MethodNotAllowed,
                },
                None => Action::Redirect,
            }
        } else if rn > 5 && seg_eq(rest, rn - 5, rn, "/undo") {
            let head = rest.substring_char(0, rn - 5);
            match parse_id(head) {
                Some(id) => match m {
                    Method::Get => Action::SetDone { id, done: false },
                    _ => Action::MethodNotAllowed,
                },
                None => Action::Redirect,
            }
        } else if rn > 7 && seg_eq(rest, rn - 7, rn, "/delete") {
            let head = rest.substring_char(0, rn - 7);
            match parse_id(head) {
                Some(id) => match m {
                    Method::Get => Action::Delete { id },
                    _ => Action::MethodNotAllowed,
                },
                None => Action::Redirect,
            }
        } else {
            Action::Redirect
        }
    } else {
        proof {
            if path@ == "/todos"@ {
                assert(path@.len() == 6);
                assert(path@.subrange(0, 6) =~= path@);
            }
            if path@.len() > 7 && path@.subrange(0, 7) == "/todos/"@ {
                assert(false);
            }
        }
        Action::Redirect
    }
}

} // verus!
