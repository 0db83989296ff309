//! The path extractor: evaluates one column's path expression against a
//! parsed line.
//!
//! Recognized forms: `$lineno` (the 1-based line number in decimal),
//! `$line` and `$0` (the raw line verbatim), and `$line.<a>.<b>...` /
//! `$0.<a>.<b>...` (object traversal through the dotted keys). Anything
//! else yields the empty string; extraction never fails.

use vstd::prelude::*;

use crate::json::{obj_lookup, traverse, leaf_string, leaf_text, JsonValue};
use crate::text::{dec_str, str_chars, str_eq, str_starts_with, u64_to_dec};

verus! {

/// The dot-separated segments of `s`. The empty sequence of characters
/// has one empty segment, so `n` characters with `k` dots always split
/// into `k + 1` segments.
pub open spec fn split_dots(s: Seq<char>) -> Seq<Seq<char>>
    decreases s.len(),
{
    if s.len() == 0 {
        seq![Seq::<char>::empty()]
    } else if s[0] == '.' {
        seq![Seq::<char>::empty()] + split_dots(s.skip(1))
    } else {
        let rest = split_dots(s.skip(1));
        seq![seq![s[0]] + rest[0]] + rest.skip(1)
    }
}

proof fn lemma_split_no_dot(t: Seq<char>)
    requires
        forall|j: int| 0 <= j < t.len() ==> t[j] != '.',
    ensures
        split_dots(t) == seq![t],
    decreases t.len(),
{
    if t.len() == 0 {
        assert(split_dots(t) =~~= seq![t]);
    } else {
        lemma_split_no_dot(t.skip(1));
        let rest = split_dots(t.skip(1));
        assert(seq![t[0]] + rest[0] =~= t);
        assert(split_dots(t) =~~= seq![t]);
    }
}

proof fn lemma_split_first_dot(t: Seq<char>, k: int)
    requires
        0 <= k < t.len(),
        t[k] == '.',
        forall|j: int| 0 <= j < k ==> t[j] != '.',
    ensures
        split_dots(t) == seq![t.take(k)] + split_dots(t.skip(k + 1)),
    decreases k,
{
    if k == 0 {
        assert(t.take(0) =~= Seq::<char>::empty());
        assert(split_dots(t) =~~= seq![t.take(0)] + split_dots(t.skip(1)));
    } else {
        let u = t.skip(1);
        assert(u[k - 1] == '.');
        lemma_split_first_dot(u, k - 1);
        let rest = split_dots(u);
        assert(rest == seq![u.take(k - 1)] + split_dots(u.skip(k)));
        assert(rest[0] == u.take(k - 1));
        assert(seq![t[0]] + u.take(k - 1) =~= t.take(k));
        assert(u.skip(k) =~= t.skip(k + 1));
        assert(rest.skip(1) =~= split_dots(t.skip(k + 1)));
        assert(split_dots(t) =~~= seq![t.take(k)] + split_dots(t.skip(k + 1)));
    }
}

/// The first `.` at or after `from`, if any.
fn find_dot(chars: &Vec<char>, from: usize) -> (r: Option<usize>)
    requires
        from <= chars@.len(),
    ensures
        match r {
            Some(k) => from <= k < chars@.len() && chars@[k as int] == '.' && forall|j: int|
                from <= j < k ==> chars@[j] != '.',
            None => forall|j: int| from <= j < chars@.len() ==> chars@[j] != '.',
        },
{
    let n = chars.len();
    let mut i: usize = from;
    while i < n
        invariant
            from <= i <= n == chars@.len(),
            forall|j: int| from <= j < i ==> chars@[j] != '.',
        decreases n - i,
    {
        if chars[i] == '.' {
            return Some(i);
        }
        i = i + 1;
    }
    None
}

/// Whether `key` holds exactly the characters `chars[from..to]`.
fn key_matches(key: &String, chars: &Vec<char>, from: usize, to: usize) -> (r: bool)
    requires
        from <= to <= chars@.len(),
    ensures
        r == (key@ == chars@.subrange(from as int, to as int)),
{
    let ks = key.as_str();
    let n = ks.unicode_len();
    if n != to - from {
        return false;
    }
    let mut j: usize = 0;
    while j < n
        invariant
            0 <= j <= n == key@.len(),
            ks@ == key@,
            from + n == to <= chars@.len(),
            forall|m: int| 0 <= m < j ==> key@[m] == chars@[from + m],
        decreases n - j,
    {
        if ks.get_char(j) != chars[from + j] {
            proof {
                assert(key@[j as int] != chars@.subrange(from as int, to as int)[j as int]);
            }
            return false;
        }
        j = j + 1;
    }
    proof {
        assert(key@ =~= chars@.subrange(from as int, to as int));
    }
    true
}

/// The entry under the key `chars[from..to]`, taking the first match.
fn lookup_key<'a>(
    entries: &'a Vec<(String, JsonValue)>,
    chars: &Vec<char>,
    from: usize,
    to: usize,
) -> (r: Option<&'a JsonValue>)
    requires
        from <= to <= chars@.len(),
    ensures
        match r {
            Some(c) => obj_lookup(entries@, chars@.subrange(from as int, to as int)) == Some(*c),
            None => obj_lookup(entries@, chars@.subrange(from as int, to as int)) is None,
        },
{
    let ghost key = chars@.subrange(from as int, to as int);
    let n = entries.len();
    let mut i: usize = 0;
    proof {
        assert(entries@.skip(0) =~= entries@);
    }
    while i < n
        invariant
            0 <= i <= n == entries@.len(),
            from <= to <= chars@.len(),
            key == chars@.subrange(from as int, to as int),
            obj_lookup(entries@, key) == obj_lookup(entries@.skip(i as int), key),
        decreases n - i,
    {
        if key_matches(&entries[i].0, chars, from, to) {
            proof {
                assert(entries@.skip(i as int)[0] == entries@[i as int]);
            }
            return Some(&entries[i].1);
        }
        proof {
            assert(entries@.skip(i as int).skip(1) =~= entries@.skip(i + 1));
        }
        i = i + 1;
    }
    None
}

/// Traverses `v` through the dotted keys of `chars[i..]`.
fn walk(v: &JsonValue, chars: &Vec<char>, i: usize) -> (r: String)
    requires
        i <= chars@.len(),
    ensures
        r@ == traverse(*v, split_dots(chars@.skip(i as int))),
    decreases chars@.len() - i,
{
    let ghost tail = chars@.skip(i as int);
    // Binding the length tells the verifier that every index of `chars`
    // fits in usize.
    let n = chars.len();
    match find_dot(chars, i) {
        None => {
            proof {
                lemma_split_no_dot(tail);
            }
            match v {
                JsonValue::Obj(entries, otext) => {
                    proof {
                        assert(chars@.subrange(i as int, chars@.len() as int) =~= tail);
                        assert(seq![tail][0] == tail);
                        assert(*v == JsonValue::Obj(*entries, *otext));
                    }
                    match lookup_key(entries, chars, i, chars.len()) {
                        Some(child) => {
                            proof {
                                assert(seq![tail].skip(1) =~~= Seq::<Seq<char>>::empty());
                            }
                            let res = leaf_string(child);
                            proof {
                                assert(obj_lookup(entries@, tail) == Some(*child));
                                assert(traverse(*child, seq![tail].skip(1)) == leaf_text(*child));
                                assert(traverse(*v, seq![tail]) == leaf_text(*child));
                            }
                            res
                        },
                        None => String::new(),
                    }
                },
                _ => String::new(),
            }
        },
        Some(k) => {
            proof {
                assert(tail[k - i] == '.');
                lemma_split_first_dot(tail, k - i);
                assert(tail.take(k - i) =~= chars@.subrange(i as int, k as int));
                assert(tail.skip(k - i + 1) =~= chars@.skip(k + 1));
                assert((seq![tail.take(k - i)] + split_dots(tail.skip(k - i + 1)))[0] == tail.take(
                    k - i,
                ));
            }
            match v {
                JsonValue::Obj(entries, otext) => {
                    proof {
                        assert(*v == JsonValue::Obj(*entries, *otext));
                    }
                    match lookup_key(entries, chars, i, k) {
                        Some(child) => {
                            proof {
                                assert((seq![tail.take(k - i)] + split_dots(tail.skip(k - i + 1)))
                                    .skip(1) =~~= split_dots(chars@.skip(k + 1)));
                            }
                            walk(child, chars, k + 1)
                        },
                        None => String::new(),
                    }
                },
                _ => String::new(),
            }
        },
    }
}

/// Whether `path` begins with `p` and is longer than it.
pub open spec fn has_prefix(path: Seq<char>, p: Seq<char>) -> bool {
    path.len() >= p.len() && path.take(p.len() as int) == p
}

/// The value of one path expression: `$lineno` is the line number in
/// decimal, `$line` and `$0` are the raw line, their dotted forms
/// traverse the parsed value, and every other expression is empty.
pub open spec fn spec_extract(root: JsonValue, path: Seq<char>, line: Seq<char>, line_no: int) -> Seq<
    char,
> {
    if path == "$lineno"@ {
        dec_str(line_no)
    } else if path == "$line"@ || path == "$0"@ {
        line
    } else if has_prefix(path, "$line."@) {
        traverse(root, split_dots(path.skip("$line."@.len() as int)))
    } else if has_prefix(path, "$0."@) {
        traverse(root, split_dots(path.skip("$0."@.len() as int)))
    } else {
        Seq::empty()
    }
}

/// Evaluates the path expression `path` against the parsed value `root`,
/// the raw line text `line`, and the 1-based line number `line_no`. Never
/// fails: an unrecognized path yields the empty string.
pub fn extract_field(root: &JsonValue, path: &str, line: &str, line_no: u64) -> (r: String)
    ensures
        r@ == spec_extract(*root, path@, line@, line_no as int),
{
    if str_eq(path, "$lineno") {
        return u64_to_dec(line_no);
    }
    if str_eq(path, "$line") || str_eq(path, "$0") {
        return String::from_str(line);
    }
    if str_starts_with(path, "$line.") {
        let chars = str_chars(path);
        proof {
            reveal_strlit("$line.");
        }
        return walk(root, &chars, 6);
    }
    if str_starts_with(path, "$0.") {
        let chars = str_chars(path);
        proof {
            reveal_strlit("$0.");
        }
        return walk(root, &chars, 3);
    }
    String::new()
}


/// The raw-line paths are independent of the parsed value: whatever a
/// line parsed to (even `Null`, for a line that is not JSON), the paths
/// `$line` and `$0` yield the raw line text exactly.
pub proof fn lemma_extract_line_verbatim(root: JsonValue, line: Seq<char>, line_no: int)
    ensures
        spec_extract(root, "$line"@, line, line_no) == line,
        spec_extract(root, "$0"@, line, line_no) == line,
{
    reveal_strlit("$line");
    reveal_strlit("$0");
    reveal_strlit("$lineno");
    assert("$line"@.len() == 5 && "$0"@.len() == 2 && "$lineno"@.len() == 7);
    assert("$line"@ != "$lineno"@ && "$0"@ != "$lineno"@ && "$0"@ != "$line"@);
}

/// The line-number path is independent of the parsed value and of the
/// raw text: `$lineno` always yields the decimal rendering of the
/// 1-based line number.
pub proof fn lemma_extract_lineno(root: JsonValue, line: Seq<char>, line_no: int)
    ensures
        spec_extract(root, "$lineno"@, line, line_no) == dec_str(line_no),
{
    reveal_strlit("$lineno");
}

} // verus!
