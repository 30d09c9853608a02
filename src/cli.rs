use vstd::prelude::*;
use vstd::string::StringExecFns;

verus! {

/// Index of the first `c` in `s` at or after `from`.
pub open spec fn find_char_from(s: Seq<char>, c: char, from: int) -> Option<int>
    decreases s.len() - from,
{
    if from >= s.len() || from < 0 {
        None
    } else if s[from] == c {
        Some(from)
    } else {
        find_char_from(s, c, from + 1)
    }
}

fn find_char(s: &str, c: char, from: usize) -> (r: Option<usize>)
    ensures
        match find_char_from(s@, c, from as int) {
            Some(k) => r == Some(k as usize) && from <= k < s@.len(),
            None => r is None,
        },
{
    let n = s.unicode_len();
    let mut i = from;
    while i < n
        invariant
            n == s@.len(),
            from <= i,
            find_char_from(s@, c, from as int) == find_char_from(s@, c, i as int),
        decreases n - i,
    {
        if s.get_char(i) == c {
            return Some(i);
        }
        i = i + 1;
    }
    None
}

/// The pieces of `s` between occurrences of `=`, where an empty last piece
/// is dropped (a trailing `=` terminates rather than separates), read as a
/// name and a value when there are exactly two pieces.
pub open spec fn key_value_spec(s: Seq<char>) -> Option<(Seq<char>, Seq<char>)> {
    match find_char_from(s, '=', 0) {
        None => None,
        Some(e1) => match find_char_from(s, '=', e1 + 1) {
            None => if e1 + 1 < s.len() {
                Some((s.subrange(0, e1), s.subrange(e1 + 1, s.len() as int)))
            } else {
                None
            },
            Some(e2) => if e2 == s.len() - 1 {
                Some((s.subrange(0, e1), s.subrange(e1 + 1, e2)))
            } else {
                None
            },
        },
    }
}

/// Split one `name=value` argument.
pub fn parse_key_value(s: &str) -> (r: Option<(String, String)>)
    ensures
        match key_value_spec(s@) {
            Some((k, v)) => r matches Some(p) && p.0@ == k && p.1@ == v,
            None => r is None,
        },
{
    let n = s.unicode_len();
    let e1 = match find_char(s, '=', 0) {
        Some(e) => e,
        None => {
            return None;
        },
    };
    let value_end = match find_char(s, '=', e1 + 1) {
        None => {
            if e1 + 1 < n {
                n
            } else {
                return None;
            }
        },
        Some(e2) => {
            if e2 == n - 1 {
                e2
            } else {
                return None;
            }
        },
    };
    let key = <String as StringExecFns>::from_str(s.substring_char(0, e1));
    let value = <String as StringExecFns>::from_str(s.substring_char(e1 + 1, value_end));
    Some((key, value))
}

/// Read arguments of the form `name=value` (e.g. sample names and paths),
/// in the given order; `None` if any argument is not of that form.
pub fn parse_key_values(values: &Vec<String>) -> (r: Option<Vec<(String, String)>>)
    ensures
        (forall|i: int| 0 <= i < values@.len() ==> (#[trigger] key_value_spec(values@[i]@)) is Some)
            <==> r is Some,
        r matches Some(pairs) ==> {
            &&& pairs@.len() == values@.len()
            &&& forall|i: int| 0 <= i < pairs@.len() ==> {
                &&& key_value_spec(values@[i]@) matches Some((k, v))
                &&& (#[trigger] pairs@[i]).0@ == k
                &&& pairs@[i].1@ == v
            }
        },
{
    let mut pairs: Vec<(String, String)> = Vec::new();
    let mut i: usize = 0;
    while i < values.len()
        invariant
            0 <= i <= values@.len(),
            pairs@.len() == i,
            forall|j: int| 0 <= j < i ==> (#[trigger] key_value_spec(values@[j]@)) is Some,
            forall|j: int| 0 <= j < i ==> {
                &&& key_value_spec(values@[j]@) matches Some((k, v))
                &&& (#[trigger] pairs@[j]).0@ == k
                &&& pairs@[j].1@ == v
            },
        decreases values@.len() - i,
    {
        match parse_key_value(values[i].as_str()) {
            Some(p) => {
                pairs.push(p);
            },
            None => {
                return None;
            },
        }
        i = i + 1;
    }
    Some(pairs)
}

} // verus!
